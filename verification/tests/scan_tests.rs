use anime_library::scan::EntryKind;
use anime_library::scan::MediaDirectoryStructure;
use anime_library::scan::ScanError;
use anime_library::scan::WalkEntry;
use anime_library::scan::scan_entries;
use anime_library::scan::scan_outcome;

fn dir(p: &str) -> WalkEntry {
    WalkEntry { path: p.to_string(), kind: EntryKind::Directory }
}

fn file(p: &str) -> WalkEntry {
    WalkEntry { path: p.to_string(), kind: EntryKind::File }
}

fn tree_contains_name(node: &MediaDirectoryStructure, needle: &str) -> bool {
    if node.name == needle {
        return true;
    }
    if node.files.iter().any(|f| f == needle) {
        return true;
    }
    node.subdirectories.iter().any(|s| tree_contains_name(s, needle))
}

fn trees_equal(a: &MediaDirectoryStructure, b: &MediaDirectoryStructure) -> bool {
    a.name == b.name && a.path == b.path && a.files == b.files
        && a.subdirectories.len() == b.subdirectories.len()
        && a.subdirectories.iter().zip(b.subdirectories.iter()).all(|(x, y)| trees_equal(x, y))
}

#[test]
fn end_to_end_scenario() {
    let root = "/lib".to_string();
    let entries = vec![
        dir("/lib"),
        dir("/lib/.trash"),
        file("/lib/.trash/old.mkv"),
        dir("/lib/showA"),
        file("/lib/showA/ep1.mp4"),
        file("/lib/showA/notes.txt"),
    ];
    let tree = scan_entries(&root, &entries);
    assert_eq!(tree.name, "lib");
    assert_eq!(tree.path, "/lib");
    assert!(tree.files.is_empty());
    assert_eq!(tree.subdirectories.len(), 1);
    let show = &tree.subdirectories[0];
    assert_eq!(show.name, "showA");
    assert_eq!(show.path, "/lib/showA");
    assert_eq!(show.files, vec!["ep1.mp4".to_string()]);
    assert!(show.subdirectories.is_empty());
    assert!(!tree_contains_name(&tree, ".trash"));
    assert!(!tree_contains_name(&tree, "old.mkv"));
    assert!(!tree_contains_name(&tree, "notes.txt"));
}

#[test]
fn extension_filter() {
    let root = "/d".to_string();
    let entries = vec![
        dir("/d"),
        file("/d/READ.ME"),
        file("/d/show"),
        file("/d/show.mkv"),
        file("/d/show.srt"),
    ];
    let tree = scan_entries(&root, &entries);
    assert_eq!(tree.files, vec!["show.mkv".to_string()]);
    assert!(tree.subdirectories.is_empty());
}

#[test]
fn hidden_directory_subtree_excluded() {
    let root = "/r".to_string();
    let entries = vec![
        dir("/r"),
        dir("/r/.hidden"),
        file("/r/.hidden/a.mp4"),
        dir("/r/.hidden/deep"),
        file("/r/.hidden/deep/b.mp4"),
    ];
    let tree = scan_entries(&root, &entries);
    assert!(tree.files.is_empty());
    assert!(tree.subdirectories.is_empty());
    assert!(!tree_contains_name(&tree, ".hidden"));
    assert!(!tree_contains_name(&tree, "a.mp4"));
    assert!(!tree_contains_name(&tree, "deep"));
    assert!(!tree_contains_name(&tree, "b.mp4"));
}

#[test]
fn hidden_file_excluded() {
    let root = "/r".to_string();
    let entries = vec![dir("/r"), file("/r/.secret.mp4"), file("/r/open.mp4")];
    let tree = scan_entries(&root, &entries);
    assert_eq!(tree.files, vec!["open.mp4".to_string()]);
}

#[test]
fn scan_failure_is_io_failure() {
    let root = "/does/not/exist".to_string();
    let walk: Result<Vec<WalkEntry>, String> = Err("No such file or directory".to_string());
    let r = scan_outcome(&root, walk);
    match r {
        Err(ScanError::IoFailure(detail)) => {
            assert_eq!(detail, "No such file or directory");
        }
        Ok(_) => panic!("a failed walk must not yield a tree"),
    }
}

#[test]
fn successful_walk_always_yields_tree() {
    let root = "/r".to_string();
    let walk: Result<Vec<WalkEntry>, String> = Ok(vec![dir("/r"), file("/r/a.mp4")]);
    let r = scan_outcome(&root, walk);
    match r {
        Ok(tree) => {
            assert_eq!(tree.files, vec!["a.mp4".to_string()]);
        }
        Err(_) => panic!("a successful walk must yield a tree"),
    }
}

#[test]
fn scan_determinism() {
    let build = || {
        vec![
            dir("/m"),
            dir("/m/a"),
            file("/m/a/x.mp4"),
            file("/m/a/y.mkv"),
            dir("/m/b"),
            file("/m/b/z.avi"),
            dir("/m/a/inner"),
            file("/m/a/inner/w.webm"),
        ]
    };
    let root = "/m".to_string();
    let t1 = scan_entries(&root, &build());
    let t2 = scan_entries(&root, &build());
    assert!(trees_equal(&t1, &t2));
}

#[test]
fn nested_structure_mirrors_hierarchy() {
    let root = "/m".to_string();
    let entries = vec![
        dir("/m"),
        dir("/m/a"),
        dir("/m/a/b"),
        file("/m/a/b/deep.mp4"),
        file("/m/a/mid.mkv"),
        dir("/m/c"),
        file("/m/top.avi"),
    ];
    let tree = scan_entries(&root, &entries);
    assert_eq!(tree.files, vec!["top.avi".to_string()]);
    assert_eq!(tree.subdirectories.len(), 2);
    let a = &tree.subdirectories[0];
    assert_eq!(a.name, "a");
    assert_eq!(a.files, vec!["mid.mkv".to_string()]);
    assert_eq!(a.subdirectories.len(), 1);
    let b = &a.subdirectories[0];
    assert_eq!(b.name, "b");
    assert_eq!(b.files, vec!["deep.mp4".to_string()]);
    assert!(b.subdirectories.is_empty());
    let c = &tree.subdirectories[1];
    assert_eq!(c.name, "c");
    assert!(c.files.is_empty());
    assert!(c.subdirectories.is_empty());
}

#[test]
fn empty_directory_still_appears() {
    let root = "/e".to_string();
    let entries = vec![dir("/e"), dir("/e/empty")];
    let tree = scan_entries(&root, &entries);
    assert!(tree.files.is_empty());
    assert_eq!(tree.subdirectories.len(), 1);
    assert_eq!(tree.subdirectories[0].name, "empty");
    assert!(tree.subdirectories[0].files.is_empty());
    assert!(tree.subdirectories[0].subdirectories.is_empty());
}

#[test]
fn duplicate_directory_entry_appears_once() {
    let root = "/m".to_string();
    let entries = vec![dir("/m"), dir("/m/a"), dir("/m/a"), file("/m/a/x.mp4")];
    let tree = scan_entries(&root, &entries);
    assert_eq!(tree.subdirectories.len(), 1);
    assert_eq!(tree.subdirectories[0].files, vec!["x.mp4".to_string()]);
}

#[test]
fn filesystem_root_keeps_full_path_as_name() {
    let root = "/".to_string();
    let entries = vec![dir("/"), dir("/media"), file("/media/clip.mov")];
    let tree = scan_entries(&root, &entries);
    assert_eq!(tree.name, "/");
    assert_eq!(tree.subdirectories.len(), 1);
    assert_eq!(tree.subdirectories[0].name, "media");
    assert_eq!(tree.subdirectories[0].files, vec!["clip.mov".to_string()]);
}

#[test]
fn empty_walk_yields_bare_root() {
    let root = "/lonely".to_string();
    let entries: Vec<WalkEntry> = Vec::new();
    let tree = scan_entries(&root, &entries);
    assert_eq!(tree.name, "lonely");
    assert_eq!(tree.path, "/lonely");
    assert!(tree.files.is_empty());
    assert!(tree.subdirectories.is_empty());
}

#[test]
fn file_before_its_directory_still_attaches() {
    let root = "/m".to_string();
    let entries = vec![dir("/m"), file("/m/a/x.mp4"), dir("/m/a")];
    let tree = scan_entries(&root, &entries);
    assert_eq!(tree.subdirectories.len(), 1);
    assert_eq!(tree.subdirectories[0].files, vec!["x.mp4".to_string()]);
}

#[test]
fn file_under_unlisted_directory_is_dropped() {
    let root = "/m".to_string();
    let entries = vec![dir("/m"), file("/m/ghost/x.mp4")];
    let tree = scan_entries(&root, &entries);
    assert!(tree.files.is_empty());
    assert!(tree.subdirectories.is_empty());
    assert!(!tree_contains_name(&tree, "x.mp4"));
}

#[test]
fn new_node_is_empty() {
    let n = MediaDirectoryStructure::new("show".to_string(), "/lib/show".to_string());
    assert_eq!(n.name, "show");
    assert_eq!(n.path, "/lib/show");
    assert!(n.files.is_empty());
    assert!(n.subdirectories.is_empty());
}
