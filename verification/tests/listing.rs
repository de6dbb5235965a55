use talos::listing::{
    build_tree_recursive, comes_before, hidden, insert_node, join_path, list_entries, list_tree,
    strip_extension, DirEntry, TreeNode,
};
use talos::models::PassEntry;

fn file(name: &str) -> DirEntry {
    DirEntry { file_name: name.to_string(), is_dir: false, children: Vec::new() }
}

fn dir(name: &str, children: Vec<DirEntry>) -> DirEntry {
    DirEntry { file_name: name.to_string(), is_dir: true, children }
}

fn entry(name: &str, path: &str) -> TreeNode {
    TreeNode { name: name.to_string(), path: path.to_string(), is_dir: false, children: None }
}

fn category(name: &str, path: &str, children: Vec<TreeNode>) -> TreeNode {
    TreeNode { name: name.to_string(), path: path.to_string(), is_dir: true, children: Some(children) }
}

#[test]
fn the_tree_is_sorted_by_name_at_every_level() {
    let raw = vec![
        file("zeta.gpg"),
        dir("Social", vec![file("twitter.gpg"), file("mastodon.gpg"), file(".gitkeep")]),
        file("alpha.gpg"),
        dir("Bank", vec![]),
    ];
    let tree = list_tree(&raw);
    assert_eq!(
        tree,
        vec![
            category("Bank", "Bank", vec![]),
            category(
                "Social",
                "Social",
                vec![entry("mastodon", "Social/mastodon"), entry("twitter", "Social/twitter")]
            ),
            entry("alpha", "alpha"),
            entry("zeta", "zeta"),
        ]
    );
}

#[test]
fn the_order_is_case_sensitive() {
    let tree = list_tree(&vec![file("b.gpg"), file("B.gpg"), file("a.gpg"), file("A.gpg")]);
    let names: Vec<&str> = tree.iter().map(|n| n.name.as_str()).collect();
    assert_eq!(names, vec!["A", "B", "a", "b"]);
}

#[test]
fn a_prefix_comes_before_the_longer_name() {
    let tree = list_tree(&vec![file("abc.gpg"), file("ab.gpg"), file("a.gpg")]);
    let names: Vec<&str> = tree.iter().map(|n| n.name.as_str()).collect();
    assert_eq!(names, vec!["a", "ab", "abc"]);
}

#[test]
fn metadata_and_placeholders_are_not_listed() {
    let raw = vec![
        dir(".git", vec![file("config")]),
        file(".gpg-id"),
        file(".gitkeep"),
        file("kept.gpg"),
        file(".gpg"),
        file(".hidden"),
    ];
    let tree = list_tree(&raw);
    assert_eq!(tree, vec![entry("", ""), entry(".hidden", ".hidden"), entry("kept", "kept")]);
}

#[test]
fn only_the_extension_at_the_end_is_taken_off() {
    assert_eq!(strip_extension("twitter.gpg"), "twitter");
    assert_eq!(strip_extension("notes.txt"), "notes.txt");
    assert_eq!(strip_extension("a.gpg.gpg"), "a.gpg");
    assert_eq!(strip_extension("a.gpgx"), "a.gpgx");
    assert_eq!(strip_extension(".gpg"), "");
    assert_eq!(strip_extension("gpg"), "gpg");
    assert_eq!(strip_extension(""), "");
}

#[test]
fn a_directory_keeps_its_name() {
    let tree = list_tree(&vec![dir("keys.gpg", vec![file("a.gpg")])]);
    assert_eq!(tree, vec![category("keys.gpg", "keys.gpg", vec![entry("a", "keys.gpg/a")])]);
}

#[test]
fn an_empty_store_has_an_empty_tree() {
    assert_eq!(list_tree(&vec![]), Vec::<TreeNode>::new());
    assert_eq!(build_tree_recursive("Sub", &vec![]), Vec::<TreeNode>::new());
}

#[test]
fn paths_are_joined_below_the_category() {
    assert_eq!(join_path("", "a"), "a");
    assert_eq!(join_path("a", "b"), "a/b");
    assert_eq!(join_path("a/b", "c"), "a/b/c");
    let tree = build_tree_recursive("Top", &vec![dir("Mid", vec![file("leaf.gpg")])]);
    assert_eq!(tree, vec![category("Mid", "Top/Mid", vec![entry("leaf", "Top/Mid/leaf")])]);
}

#[test]
fn hidden_names_are_exact() {
    assert!(hidden(".git"));
    assert!(hidden(".gpg-id"));
    assert!(hidden(".gitkeep"));
    assert!(!hidden(".gitignore"));
    assert!(!hidden("git"));
    assert!(!hidden(""));
}

#[test]
fn names_are_ordered_by_code_point() {
    assert!(comes_before("", ""));
    assert!(comes_before("", "a"));
    assert!(!comes_before("a", ""));
    assert!(comes_before("a", "a"));
    assert!(comes_before("a", "b"));
    assert!(!comes_before("b", "a"));
    assert!(comes_before("Z", "a"));
    assert!(comes_before("ab", "abc"));
    assert!(!comes_before("abd", "abc"));
    assert!(comes_before("z", "é"));
}

#[test]
fn equal_names_keep_their_order() {
    let mut nodes = vec![entry("a", "first")];
    insert_node(&mut nodes, entry("a", "second"));
    insert_node(&mut nodes, entry("0", "zero"));
    let paths: Vec<&str> = nodes.iter().map(|n| n.path.as_str()).collect();
    assert_eq!(paths, vec!["zero", "first", "second"]);
}

#[test]
fn one_category_is_listed_flat() {
    let raw = vec![
        file("zeta.gpg"),
        dir(".git", vec![]),
        dir("Social", vec![file("twitter.gpg")]),
        file(".gpg-id"),
        file("notes.txt"),
    ];
    assert_eq!(
        list_entries(&raw),
        vec![
            PassEntry { name: "zeta".to_string(), is_dir: false },
            PassEntry { name: "Social".to_string(), is_dir: true },
            PassEntry { name: "notes.txt".to_string(), is_dir: false },
        ]
    );
    assert_eq!(list_entries(&vec![]), Vec::<PassEntry>::new());
}
