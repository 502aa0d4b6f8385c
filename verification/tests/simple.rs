use project_scan::simple::{child_path, is_hidden, is_visible_from, DirEntry, SimpleScan};

fn path(names: &[&str]) -> Vec<String> {
    names.iter().map(|n| n.to_string()).collect()
}

fn dir(name: &str) -> DirEntry {
    DirEntry { name: name.to_string(), is_dir: true }
}

fn plain(name: &str) -> DirEntry {
    DirEntry { name: name.to_string(), is_dir: false }
}

#[test]
fn hidden_names_start_with_a_dot() {
    assert!(is_hidden(".git"));
    assert!(is_hidden(".foo"));
    assert!(is_hidden("."));
    assert!(is_hidden(".."));
    assert!(!is_hidden("foo"));
    assert!(!is_hidden("foo.bar"));
    assert!(!is_hidden(""));
    assert!(!is_hidden("é.x"));
}

#[test]
fn child_path_adds_the_name() {
    assert_eq!(child_path(&path(&["a", "b"]), &"c".to_string()), path(&["a", "b", "c"]));
    assert_eq!(child_path(&path(&[]), &"c".to_string()), path(&["c"]));
}

#[test]
fn new_scan_reads_the_root_first() {
    let scan = SimpleScan::new(path(&["repo"]));
    assert_eq!(scan.root, path(&["repo"]));
    assert_eq!(scan.pending, vec![path(&["repo"])]);
    assert_eq!(scan.next_directory(), Some(path(&["repo"])));
}

#[test]
fn hidden_directory_is_not_entered() {
    let mut scan = SimpleScan::new(path(&["repo"]));
    let files = scan.step(&vec![dir(".foo"), dir("src"), dir(".git"), plain("project.json")]);
    assert_eq!(files, vec![path(&["repo", "project.json"])]);
    assert_eq!(scan.pending, vec![path(&["repo", "src"])]);
}

#[test]
fn directories_are_read_in_the_order_of_the_listing() {
    let mut scan = SimpleScan::new(path(&["r"]));
    let files = scan.step(&vec![dir("a"), plain("readme.md"), dir("b"), dir("c")]);
    assert!(files.is_empty());
    assert_eq!(scan.next_directory(), Some(path(&["r", "a"])));
    let files = scan.step(&vec![dir("deep"), plain("project.json")]);
    assert_eq!(files, vec![path(&["r", "a", "project.json"])]);
    assert_eq!(scan.next_directory(), Some(path(&["r", "a", "deep"])));
    assert!(scan.step(&vec![]).is_empty());
    assert_eq!(scan.next_directory(), Some(path(&["r", "b"])));
    assert!(scan.step(&vec![]).is_empty());
    assert_eq!(scan.next_directory(), Some(path(&["r", "c"])));
    assert!(scan.step(&vec![plain("other.json")]).is_empty());
    assert_eq!(scan.next_directory(), None);
}

#[test]
fn directory_named_like_a_project_file_is_no_file() {
    let mut scan = SimpleScan::new(path(&["r"]));
    let files = scan.step(&vec![dir("project.json")]);
    assert!(files.is_empty());
    assert_eq!(scan.pending, vec![path(&["r", "project.json"])]);
}

#[test]
fn hidden_file_is_no_project_file() {
    let mut scan = SimpleScan::new(path(&["r"]));
    let files = scan.step(&vec![plain(".project.json"), plain("project.json~")]);
    assert!(files.is_empty());
    assert!(scan.pending.is_empty());
}

#[test]
fn step_with_nothing_pending_changes_nothing() {
    let mut scan = SimpleScan::new(path(&["r"]));
    scan.step(&vec![]);
    assert_eq!(scan.next_directory(), None);
    let files = scan.step(&vec![dir("late"), plain("project.json")]);
    assert!(files.is_empty());
    assert!(scan.pending.is_empty());
    assert_eq!(scan.root, path(&["r"]));
}

#[test]
fn hidden_root_is_still_scanned() {
    let mut scan = SimpleScan::new(path(&["home", ".work"]));
    let files = scan.step(&vec![dir("app"), dir(".cache")]);
    assert!(files.is_empty());
    assert_eq!(scan.pending, vec![path(&["home", ".work", "app"])]);
}

#[test]
fn simple_scan_twice_gives_the_same_files() {
    let listing = vec![dir("a"), plain("project.json"), dir(".b")];
    let mut one = SimpleScan::new(path(&["r"]));
    let mut two = SimpleScan::new(path(&["r"]));
    assert_eq!(one.step(&listing), two.step(&listing));
    assert_eq!(one, two);
}

#[test]
fn visible_from_looks_below_the_index_only() {
    let p = path(&[".top", "a", "b"]);
    assert!(!is_visible_from(&p, 0));
    assert!(is_visible_from(&p, 1));
    assert!(is_visible_from(&p, 3));
    assert!(is_visible_from(&p, 7));
    assert!(!is_visible_from(&path(&["a", ".b", "c"]), 1));
    assert!(is_visible_from(&path(&["a", ".b", "c"]), 2));
}

#[test]
fn scan_stays_well_formed() {
    let mut scan = SimpleScan::new(path(&["home", ".work"]));
    assert!(scan.is_well_formed());
    scan.step(&vec![dir("a"), dir(".b"), plain("project.json")]);
    assert!(scan.is_well_formed());
    scan.step(&vec![dir("c")]);
    assert!(scan.is_well_formed());
}

#[test]
fn scan_with_a_foreign_or_hidden_directory_is_not_well_formed() {
    let outside = SimpleScan { root: path(&["r"]), pending: vec![path(&["other", "a"])] };
    assert!(!outside.is_well_formed());
    let hidden = SimpleScan { root: path(&["r"]), pending: vec![path(&["r", ".git", "a"])] };
    assert!(!hidden.is_well_formed());
    let fine = SimpleScan { root: path(&["r"]), pending: vec![path(&["r", "a"]), path(&["r"])] };
    assert!(fine.is_well_formed());
}
