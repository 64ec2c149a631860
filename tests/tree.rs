use orchestra::lines::File;
use orchestra::tree::Dir;

fn file(name: &str, path: &str, size: u64, texts: &[&str]) -> File {
    File::from_lines(
        name.to_string(),
        path.to_string(),
        texts.iter().map(|t| t.to_string()).collect(),
        None,
        size,
    )
}

fn rules() -> Vec<String> {
    vec!["target".to_string(), ".git".to_string()]
}

fn sample() -> Dir {
    let mut root = Dir::new("proj".to_string(), "proj".to_string(), rules(), Some(100));
    let mut src = Dir::new("src".to_string(), "proj/src".to_string(), rules(), Some(100));
    assert!(src.add_file(file("main.rs", "proj/src/main.rs", 10, &["fn main() {}"])));
    assert!(root.add_subdir(src));
    assert!(root.add_file(file("a.txt", "proj/a.txt", 5, &["one", "two"])));
    root
}

#[test]
fn ignored_names_and_sizes_stay_out() {
    let mut root = Dir::new("proj".to_string(), "proj".to_string(), rules(), Some(100));
    assert!(!root.add_file(file("big.bin", "proj/big.bin", 101, &[])));
    assert!(!root.add_file(file("x.target.rs", "proj/x.target.rs", 1, &[])));
    assert!(root.add_file(file("ok.rs", "proj/ok.rs", 100, &[])));
    let mut deep = Dir::new("deep".to_string(), "proj/deep".to_string(), rules(), Some(100));
    assert!(!deep.add_file(file("huge", "proj/deep/huge", 500, &[])));
    assert!(root.add_subdir(deep));
    let git = Dir::new(".git".to_string(), "proj/.git".to_string(), rules(), Some(100));
    assert!(!root.add_subdir(git));
    assert_eq!(root.total_files_count(), 1);
    assert_eq!(root.subdirs.len(), 1);
    assert!(root.ignores_name("my_target_dir"));
    assert!(!root.ignores_name("src"));
    assert!(root.ignores_size(101));
    assert!(!root.ignores_size(100));
}

#[test]
fn pretty_print_draws_a_tree() {
    let root = sample();
    assert_eq!(
        root.pretty_print(),
        "Filesystem:\nproj\n├─ src\n│  └─ main.rs\n└─ a.txt\n"
    );
    let empty = Dir::new("e".to_string(), "e".to_string(), vec![], None);
    assert_eq!(empty.pretty_print(), "Filesystem:\ne\n");
}

#[test]
fn totals_count_every_depth() {
    let root = sample();
    assert_eq!(root.total_files_count(), 2);
    assert_eq!(root.total_size(), 15);
}

#[test]
fn refresh_replaces_only_the_target_file() {
    let mut root = sample();
    let fresh = file("main.rs", "proj/src/main.rs", 20, &["fn main() {", "}"]);
    assert!(root.refresh_file("proj/src/main.rs", fresh));
    let node = &root.subdirs[0].files[0];
    assert_eq!(node.data_line.len(), 2);
    assert_eq!(node.size, 20);
    assert_eq!(node.parent_dir.as_deref(), Some("proj/src"));
    assert_eq!(root.files[0].data_line.len(), 2);
    assert!(!root.refresh_file("proj/none.txt", file("none.txt", "proj/none.txt", 1, &[])));
}

#[test]
fn refresh_drops_a_file_grown_past_the_limit() {
    let mut root = sample();
    assert!(root.refresh_file("proj/a.txt", file("a.txt", "proj/a.txt", 1000, &["x"])));
    assert!(root.files.is_empty());
    assert_eq!(root.total_files_count(), 1);
}

#[test]
fn rule_changes_empty_the_tree() {
    let mut root = sample();
    assert!(!root.add_ignore("target".to_string()));
    assert_eq!(root.total_files_count(), 2);
    assert!(root.add_ignore("node_modules".to_string()));
    assert_eq!(root.ignore.len(), 3);
    assert_eq!(root.total_files_count(), 0);
    let mut other = sample();
    other.set_ignore(vec![]);
    assert!(other.ignore.is_empty());
    assert!(other.subdirs.is_empty());
    let mut sized = sample();
    sized.set_ignore_size(None);
    assert_eq!(sized.ignore_size, None);
    assert!(sized.files.is_empty());
}
