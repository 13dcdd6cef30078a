use ignore_aggregator::rewrite::aggregate_source;
use ignore_aggregator::scanner::{is_ignore_file_name, DirEntryInfo, Scanner};
use std::collections::BTreeMap;

fn entry(dir: &str, name: &str, is_dir: bool) -> DirEntryInfo {
    DirEntryInfo {
        path: format!("{}/{}", dir, name),
        file_name: name.to_string(),
        is_dir,
        is_file: !is_dir,
    }
}

/// Runs a search over a tree given as a map from each directory to its entries;
/// a directory missing from the map cannot be listed and is skipped.
fn run(root: &str, tree: &BTreeMap<&str, Vec<(&str, bool)>>) -> Vec<String> {
    let mut scanner = Scanner::new(root.to_string());
    while let Some(dir) = scanner.next_directory() {
        let Some(entries) = tree.get(dir.as_str()) else {
            continue;
        };
        for (name, is_dir) in entries {
            scanner.visit_entry(entry(&dir, name, *is_dir));
        }
    }
    let mut found = scanner.into_found();
    found.sort();
    found
}

#[test]
fn finds_every_ignore_file_once() {
    let mut tree = BTreeMap::new();
    tree.insert("/r", vec![(".gitignore", false), ("a", true), ("b", true), ("x.txt", false)]);
    tree.insert("/r/a", vec![(".gitignore", false), ("deep", true)]);
    tree.insert("/r/a/deep", vec![("more", true), ("gitignore", false)]);
    tree.insert("/r/a/deep/more", vec![(".gitignore", false)]);
    tree.insert("/r/b", vec![(".gitignore.bak", false)]);
    let found = run("/r", &tree);
    assert_eq!(
        found,
        vec!["/r/.gitignore", "/r/a/.gitignore", "/r/a/deep/more/.gitignore"]
    );
}

#[test]
fn renamed_ignore_file_is_not_found() {
    let mut tree = BTreeMap::new();
    tree.insert("/r", vec![("ignore_me", false), ("s", true)]);
    tree.insert("/r/s", vec![(".gitignore", false)]);
    assert_eq!(run("/r", &tree), vec!["/r/s/.gitignore"]);
}

#[test]
fn empty_tree_finds_nothing() {
    let mut tree = BTreeMap::new();
    tree.insert("/r", vec![]);
    assert!(run("/r", &tree).is_empty());
}

#[test]
fn unreadable_directory_is_skipped() {
    let mut tree = BTreeMap::new();
    tree.insert("/r", vec![("locked", true), ("open", true)]);
    tree.insert("/r/open", vec![(".gitignore", false)]);
    assert_eq!(run("/r", &tree), vec!["/r/open/.gitignore"]);
}

#[test]
fn directory_named_like_an_ignore_file_is_explored() {
    let mut tree = BTreeMap::new();
    tree.insert("/r", vec![(".gitignore", true)]);
    tree.insert("/r/.gitignore", vec![(".gitignore", false)]);
    assert_eq!(run("/r", &tree), vec!["/r/.gitignore/.gitignore"]);
}

#[test]
fn scanner_explores_last_pushed_first() {
    let mut scanner = Scanner::new("/r".to_string());
    assert_eq!(scanner.next_directory(), Some("/r".to_string()));
    scanner.visit_entry(entry("/r", "a", true));
    scanner.visit_entry(entry("/r", "b", true));
    assert_eq!(scanner.next_directory(), Some("/r/b".to_string()));
    assert_eq!(scanner.next_directory(), Some("/r/a".to_string()));
    assert_eq!(scanner.next_directory(), None);
    assert!(scanner.into_found().is_empty());
}

#[test]
fn ignore_file_name_is_exact() {
    assert!(is_ignore_file_name(&".gitignore".to_string()));
    assert!(!is_ignore_file_name(&".gitignore ".to_string()));
    assert!(!is_ignore_file_name(&"gitignore".to_string()));
    assert!(!is_ignore_file_name(&".GITIGNORE".to_string()));
}

#[test]
fn end_to_end_aggregation() {
    let mut scanner = Scanner::new("/root".to_string());
    let mut order = Vec::new();
    while let Some(dir) = scanner.next_directory() {
        if dir == "/root" {
            scanner.visit_entry(entry("/root", ".gitignore", false));
            scanner.visit_entry(entry("/root", "sub", true));
        } else if dir == "/root/sub" {
            scanner.visit_entry(entry("/root/sub", ".gitignore", false));
        }
    }
    for path in scanner.into_found() {
        order.push(path);
    }
    assert_eq!(order.len(), 2);
    let content = |p: &str| -> &str {
        if p == "/root/.gitignore" {
            "#comment\n*.tmp\n/build\n"
        } else {
            "*.o\n"
        }
    };
    let mut output = String::new();
    for path in &order {
        output.push_str(&aggregate_source(path, content(path)).unwrap());
    }
    let root_block = "# /root/.gitignore\n/root/*.tmp\n/root/build\n";
    let sub_block = "# /root/sub/.gitignore\n/root/sub/*.o\n";
    assert!(
        output == format!("{}{}", root_block, sub_block)
            || output == format!("{}{}", sub_block, root_block)
    );
    assert!(!output.contains("comment"));
}
