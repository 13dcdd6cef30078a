//! Rewriting the rules of one ignore file so that they keep their meaning in a
//! file that gathers the rules of many, and the text of that file's block.
use vstd::prelude::*;

use crate::lines::{lines_of, split_lines, views};
use crate::path::{is_absolute, join, join_path, parent_dir, parent_of};

verus! {

/// A line that begins with `#` is a comment.
pub open spec fn is_comment(line: Seq<char>) -> bool {
    line.len() > 0 && line[0] == '#'
}

/// A rule without its anchoring marker: one leading separator is dropped.
pub open spec fn strip_anchor(rule: Seq<char>) -> Seq<char> {
    if is_absolute(rule) {
        rule.drop_first()
    } else {
        rule
    }
}

/// A rule of the ignore file in `dir`, anchored to `dir`.
pub open spec fn rewrite_rule(dir: Seq<char>, rule: Seq<char>) -> Seq<char> {
    join(dir, strip_anchor(rule))
}

/// The lines of an ignore file in `dir`, with the comments left out and each
/// rule anchored to `dir`, in their order.
pub open spec fn rewrite_all(dir: Seq<char>, lines: Seq<Seq<char>>) -> Seq<Seq<char>>
    decreases lines.len(),
{
    if lines.len() == 0 {
        Seq::empty()
    } else {
        let prev = rewrite_all(dir, lines.drop_last());
        if is_comment(lines.last()) {
            prev
        } else {
            prev.push(rewrite_rule(dir, lines.last()))
        }
    }
}

/// The rewritten rules of the ignore file at `path` whose text is `content`;
/// `None` where `path` names no file, so that it has no directory.
pub open spec fn re_referenced(path: Seq<char>, content: Seq<char>) -> Option<Seq<Seq<char>>> {
    match parent_of(path) {
        Some(dir) => Some(rewrite_all(dir, lines_of(content))),
        None => None,
    }
}

/// Each of `lines` followed by a line ending.
pub open spec fn text_of_lines(lines: Seq<Seq<char>>) -> Seq<char>
    decreases lines.len(),
{
    if lines.len() == 0 {
        Seq::empty()
    } else {
        text_of_lines(lines.drop_last()) + lines.last() + seq!['\n']
    }
}

/// The comment line that names the ignore file at `path`.
pub open spec fn provenance_line(path: Seq<char>) -> Seq<char> {
    seq!['#', ' '] + path + seq!['\n']
}

/// The block of the output for the ignore file at `path`: its provenance line,
/// then its rewritten rules, one per line.
pub open spec fn block_text(path: Seq<char>, patterns: Seq<Seq<char>>) -> Seq<char> {
    provenance_line(path) + text_of_lines(patterns)
}

/// Whether `line` is a comment.
pub fn is_comment_line(line: &str) -> (r: bool)
    ensures
        r == is_comment(line@),
{
    line.unicode_len() > 0 && line.get_char(0) == '#'
}

/// The rule `rule` of the ignore file in `dir`, anchored to `dir`.
pub fn re_reference_rule(dir: &str, rule: &str) -> (r: String)
    ensures
        r@ == rewrite_rule(dir@, rule@),
{
    let n = rule.unicode_len();
    if n > 0 && rule.get_char(0) == '/' {
        let rest = rule.substring_char(1, n);
        assert(rest@ =~= rule@.drop_first());
        join_path(dir, rest)
    } else {
        join_path(dir, rule)
    }
}

/// The lines of an ignore file in `dir`, with the comments left out and each
/// rule anchored to `dir`.
pub fn re_reference_lines(dir: &str, lines: &Vec<String>) -> (r: Vec<String>)
    ensures
        views(r@) == rewrite_all(dir@, views(lines@)),
{
    let mut out: Vec<String> = Vec::new();
    let mut i: usize = 0;
    while i < lines.len()
        invariant
            i <= lines@.len(),
            views(out@) == rewrite_all(dir@, views(lines@).take(i as int)),
        decreases lines@.len() - i,
    {
        let line = lines[i].as_str();
        let ghost taken = views(lines@).take(i as int + 1);
        assert(taken.drop_last() =~= views(lines@).take(i as int));
        assert(taken.last() == line@);
        if !is_comment_line(line) {
            let rewritten = re_reference_rule(dir, line);
            let ghost before = out@;
            out.push(rewritten);
            assert(views(out@) =~= views(before).push(rewritten@));
        }
        i = i + 1;
    }
    assert(views(lines@).take(lines@.len() as int) =~= views(lines@));
    out
}

/// The rules of the ignore file at `git_ignore_path`, whose text is `content`,
/// rewritten so that each stays anchored to that file's directory; comments are
/// left out and blank lines kept. `None` where the path names no file.
pub fn re_reference_git_ignore_file(git_ignore_path: &str, content: &str) -> (r: Option<
    Vec<String>,
>)
    ensures
        r matches Some(v) ==> re_referenced(git_ignore_path@, content@) == Some(views(v@)),
        r is None ==> re_referenced(git_ignore_path@, content@) is None,
{
    match parent_dir(git_ignore_path) {
        Some(dir) => {
            let lines = split_lines(content);
            Some(re_reference_lines(dir.as_str(), &lines))
        },
        None => None,
    }
}

/// The block of the output for the ignore file at `path` with the rewritten
/// rules `patterns`.
pub fn render_block(path: &str, patterns: &Vec<String>) -> (r: String)
    ensures
        r@ == block_text(path@, views(patterns@)),
{
    proof {
        reveal_strlit("# ");
        reveal_strlit("\n");
    }
    let mut out = String::from_str("# ");
    out.append(path);
    out.append("\n");
    assert(out@ =~= provenance_line(path@) + text_of_lines(views(patterns@).take(0)));
    let mut i: usize = 0;
    while i < patterns.len()
        invariant
            i <= patterns@.len(),
            out@ == provenance_line(path@) + text_of_lines(views(patterns@).take(i as int)),
        decreases patterns@.len() - i,
    {
        let ghost taken = views(patterns@).take(i as int + 1);
        assert(taken.drop_last() =~= views(patterns@).take(i as int));
        assert(taken.last() == patterns@[i as int]@);
        let ghost prev = out@;
        out.append(patterns[i].as_str());
        out.append("\n");
        proof {
            reveal_strlit("\n");
        }
        assert("\n"@ =~= seq!['\n']);
        assert(text_of_lines(taken) == text_of_lines(taken.drop_last()) + taken.last() + seq!['\n']);
        assert(out@ =~= prev + taken.last() + seq!['\n']);
        assert(out@ =~= provenance_line(path@) + text_of_lines(taken));
        i = i + 1;
    }
    assert(views(patterns@).take(patterns@.len() as int) =~= views(patterns@));
    out
}

/// The block of the output for the ignore file at `path` whose text is
/// `content`. `None` where the path names no file.
pub fn aggregate_source(path: &str, content: &str) -> (r: Option<String>)
    ensures
        r matches Some(s) ==> re_referenced(path@, content@) matches Some(ps) && s@ == block_text(
            path@,
            ps,
        ),
        r is None ==> re_referenced(path@, content@) is None,
{
    match re_reference_git_ignore_file(path, content) {
        Some(patterns) => Some(render_block(path, &patterns)),
        None => None,
    }
}

/// Comments leave no trace and every other line gives exactly one rewritten
/// rule, in order: the rewritten rules are the non-comment lines, each anchored
/// to the file's directory.
pub proof fn lemma_rewrite_keeps_rules_only(dir: Seq<char>, lines: Seq<Seq<char>>)
    ensures
        rewrite_all(dir, lines) == lines.filter(|l: Seq<char>| !is_comment(l)).map_values(
            |l: Seq<char>| rewrite_rule(dir, l),
        ),
        rewrite_all(dir, lines).len() == lines.filter(|l: Seq<char>| !is_comment(l)).len(),
    decreases lines.len(),
{
    reveal(Seq::filter);
    if lines.len() > 0 {
        lemma_rewrite_keeps_rules_only(dir, lines.drop_last());
        let kept = lines.drop_last().filter(|l: Seq<char>| !is_comment(l));
        if !is_comment(lines.last()) {
            assert(kept.push(lines.last()).map_values(|l: Seq<char>| rewrite_rule(dir, l))
                =~= kept.map_values(|l: Seq<char>| rewrite_rule(dir, l)).push(
                rewrite_rule(dir, lines.last()),
            ));
        }
    }
}

/// Taking a comment line out of an ignore file does not change its rewritten
/// rules.
pub proof fn lemma_comment_line_has_no_effect(dir: Seq<char>, lines: Seq<Seq<char>>, i: int)
    requires
        0 <= i < lines.len(),
        is_comment(lines[i]),
    ensures
        rewrite_all(dir, lines) == rewrite_all(dir, lines.remove(i)),
    decreases lines.len(),
{
    if i == lines.len() - 1 {
        assert(lines.remove(i) =~= lines.drop_last());
    } else {
        lemma_comment_line_has_no_effect(dir, lines.drop_last(), i);
        assert(lines.remove(i).drop_last() =~= lines.drop_last().remove(i));
        assert(lines.remove(i).last() == lines.last());
    }
}

/// An ignore file with no rules, only comments and blank lines, is rewritten
/// without failing: each blank line gives the file's directory itself, and a
/// file of comments alone gives no rules.
pub proof fn lemma_no_rules(path: Seq<char>, content: Seq<char>)
    requires
        parent_of(path) is Some,
        forall|i: int|
            0 <= i < lines_of(content).len() ==> is_comment(#[trigger] lines_of(content)[i])
                || lines_of(content)[i].len() == 0,
    ensures
        re_referenced(path, content) matches Some(ps) && (forall|i: int|
            0 <= i < ps.len() ==> #[trigger] ps[i] == join(parent_of(path)->0, Seq::empty())),
        (forall|i: int| 0 <= i < lines_of(content).len() ==> is_comment(#[trigger] lines_of(content)[i]))
            ==> re_referenced(path, content) == Some(Seq::<Seq<char>>::empty()),
{
    let dir = parent_of(path)->0;
    let lines = lines_of(content);
    lemma_blank_lines_give_dir(dir, lines);
}

proof fn lemma_blank_lines_give_dir(dir: Seq<char>, lines: Seq<Seq<char>>)
    requires
        forall|i: int| 0 <= i < lines.len() ==> is_comment(#[trigger] lines[i]) || lines[i].len() == 0,
    ensures
        forall|i: int|
            0 <= i < rewrite_all(dir, lines).len() ==> #[trigger] rewrite_all(dir, lines)[i] == join(
                dir,
                Seq::empty(),
            ),
        (forall|i: int| 0 <= i < lines.len() ==> is_comment(#[trigger] lines[i])) ==> rewrite_all(
            dir,
            lines,
        ) == Seq::<Seq<char>>::empty(),
    decreases lines.len(),
{
    if lines.len() > 0 {
        assert(forall|i: int| 0 <= i < lines.len() - 1 ==> lines.drop_last()[i] == lines[i]);
        lemma_blank_lines_give_dir(dir, lines.drop_last());
        if !is_comment(lines.last()) {
            assert(lines.last() =~= Seq::<char>::empty());
            assert(strip_anchor(lines.last()) =~= Seq::<char>::empty());
            let prev = rewrite_all(dir, lines.drop_last());
            assert forall|i: int| 0 <= i < rewrite_all(dir, lines).len() implies #[trigger] rewrite_all(
                dir,
                lines,
            )[i] == join(dir, Seq::empty()) by {
                if i < prev.len() {
                    assert(rewrite_all(dir, lines)[i] == prev[i]);
                }
            }
        }
        if forall|i: int| 0 <= i < lines.len() ==> is_comment(#[trigger] lines[i]) {
            assert(is_comment(lines[lines.len() - 1]));
        }
    }
}

/// An anchored rule `/r` in an ignore file whose directory is `dir` becomes
/// `dir/r`: the marker is dropped and the rest joined onto the directory.
pub proof fn lemma_anchored_rule(dir: Seq<char>, rule: Seq<char>)
    requires
        dir.len() > 0,
        dir.last() != '/',
        !is_absolute(rule),
    ensures
        rewrite_rule(dir, seq!['/'] + rule) == dir + seq!['/'] + rule,
{
    assert((seq!['/'] + rule).drop_first() =~= rule);
}

/// A rule `r` without the marker in an ignore file whose directory is `dir`
/// becomes `dir/r`: nothing is dropped.
pub proof fn lemma_unanchored_rule(dir: Seq<char>, rule: Seq<char>)
    requires
        dir.len() > 0,
        dir.last() != '/',
        !is_absolute(rule),
    ensures
        rewrite_rule(dir, rule) == dir + seq!['/'] + rule,
{
}

} // verus!
