//! Paths as text: the directory that holds a file, and a pattern joined onto a
//! directory. The separator is `/`.
use vstd::prelude::*;

verus! {

/// True when `p` is an absolute path: it begins with the separator.
pub open spec fn is_absolute(p: Seq<char>) -> bool {
    p.len() > 0 && p[0] == '/'
}

/// True when `p` ends in a file name: it is not empty and does not end with the
/// separator.
pub open spec fn names_file(p: Seq<char>) -> bool {
    p.len() > 0 && p.last() != '/'
}

/// Index of the last separator in `p`, or -1 when it holds none.
pub open spec fn last_separator(p: Seq<char>) -> int
    decreases p.len(),
{
    if p.len() == 0 {
        -1
    } else if p.last() == '/' {
        p.len() - 1
    } else {
        last_separator(p.drop_last())
    }
}

/// The directory that holds the file named by `p`: the text before the last
/// separator, `/` for a file directly under the root, and the empty path (the
/// current directory) for a bare file name. A path that names no file has no
/// parent.
pub open spec fn parent_of(p: Seq<char>) -> Option<Seq<char>> {
    if !names_file(p) {
        None
    } else if last_separator(p) < 0 {
        Some(Seq::empty())
    } else if last_separator(p) == 0 {
        Some(seq!['/'])
    } else {
        Some(p.take(last_separator(p)))
    }
}

/// `pat` adjoined to `dir`: an absolute `pat` stands alone; otherwise a
/// separator goes between the two unless `dir` is empty or already ends in one.
pub open spec fn join(dir: Seq<char>, pat: Seq<char>) -> Seq<char> {
    if is_absolute(pat) {
        pat
    } else if dir.len() == 0 || dir.last() == '/' {
        dir + pat
    } else {
        dir + seq!['/'] + pat
    }
}

proof fn lemma_last_separator_bounds(p: Seq<char>)
    ensures
        -1 <= last_separator(p) < p.len(),
        last_separator(p) >= 0 ==> p[last_separator(p)] == '/',
        forall|j: int| last_separator(p) < j < p.len() ==> p[j] != '/',
    decreases p.len(),
{
    if p.len() > 0 && p.last() != '/' {
        lemma_last_separator_bounds(p.drop_last());
        assert forall|j: int| last_separator(p) < j < p.len() implies p[j] != '/' by {
            if j < p.len() - 1 {
                assert(p.drop_last()[j] == p[j]);
            }
        }
    }
}

/// Whether `p` begins with the separator.
pub fn starts_with_separator(p: &str) -> (r: bool)
    ensures
        r == is_absolute(p@),
{
    p.unicode_len() > 0 && p.get_char(0) == '/'
}

/// The directory that holds the file named by `path`, or `None` where the path
/// names no file.
pub fn parent_dir(path: &str) -> (r: Option<String>)
    ensures
        r matches Some(d) ==> parent_of(path@) == Some(d@),
        r is None ==> parent_of(path@) is None,
{
    let n = path.unicode_len();
    if n == 0 || path.get_char(n - 1) == '/' {
        return None;
    }
    proof {
        lemma_last_separator_bounds(path@);
    }
    let mut i: usize = n;
    while i > 0 && path.get_char(i - 1) != '/'
        invariant
            i <= n == path@.len(),
            forall|j: int| i <= j < n ==> path@[j] != '/',
        decreases i,
    {
        i = i - 1;
    }
    assert(last_separator(path@) == i as int - 1) by {
        lemma_last_separator_bounds(path@);
    }
    if i == 0 {
        Some(String::new())
    } else if i == 1 {
        proof {
            reveal_strlit("/");
        }
        let r = String::from_str("/");
        assert(r@ =~= seq!['/']);
        Some(r)
    } else {
        Some(String::from_str(path.substring_char(0, i - 1)))
    }
}

/// `pat` adjoined to the directory `dir`.
pub fn join_path(dir: &str, pat: &str) -> (r: String)
    ensures
        r@ == join(dir@, pat@),
{
    if starts_with_separator(pat) {
        return String::from_str(pat);
    }
    let n = dir.unicode_len();
    let mut r = String::from_str(dir);
    if n != 0 && dir.get_char(n - 1) != '/' {
        proof {
            reveal_strlit("/");
        }
        r.append("/");
    }
    r.append(pat);
    r
}

} // verus!
