use configinator::error::ConfigError;
use configinator::filesystem::{configuration_files, join_path, locate_files, Node, Snapshot};

/// A directory to search in, empty so far.
fn temp() -> (String, Snapshot) {
    let root = String::from("/tmp/rstest");
    let mut files = Snapshot::new();
    files.insert(&root, Node::Directory);
    (root, files)
}

#[test]
fn it_finds_no_configs() {
    let (temp, files) = temp();
    let found_files = locate_files(&temp, &files).expect("expected temp to be a valid directory");
    let expected: Vec<String> = Vec::new();
    assert_eq!(found_files, expected);
}

#[test]
fn it_finds_all_the_configs() {
    let (temp, mut files) = temp();

    for config in configuration_files() {
        let file_path = join_path(&temp, config);
        if let Some((parent, _)) = file_path.rsplit_once('/') {
            files.insert(parent, Node::Directory);
            assert!(files.is_dir(parent), "Failed to create parent directory: {:?}", parent);
        }
        files.insert(&file_path, Node::File(String::new()));
        assert!(files.is_file(&file_path), "Failed to create {:?}", file_path.clone());
    }

    let found_files = locate_files(&temp, &files).expect("expected temp to be a valid directory");
    let expected: Vec<String> = vec![
        join_path(&temp, ".lift/config.toml"),
        join_path(&temp, ".lift.toml"),
        join_path(&temp, ".muse/config.toml"),
        join_path(&temp, ".muse.toml"),
        join_path(&temp, ".muse/config"),
    ];
    assert_eq!(found_files, expected);
}

#[test]
fn the_candidates_are_five_in_this_order() {
    assert_eq!(
        configuration_files(),
        vec![".lift/config.toml", ".lift.toml", ".muse/config.toml", ".muse.toml", ".muse/config"]
    );
}

#[test]
fn join_path_puts_one_separator_between() {
    assert_eq!(join_path("root", ".lift.toml"), "root/.lift.toml");
    assert_eq!(join_path("root/", ".lift.toml"), "root/.lift.toml");
    assert_eq!(join_path("/", ".muse/config"), "/.muse/config");
    assert_eq!(join_path("", ".muse/config"), ".muse/config");
    assert_eq!(join_path("a/b", "c/d"), "a/b/c/d");
    assert_eq!(join_path("größe", "ü"), "größe/ü");
    assert_eq!(join_path("root", ""), "root/");
}

#[test]
fn join_path_agrees_with_the_standard_library() {
    for root in ["", "/", "a", "a/", "/a/b", "/a/b/", "./x", "..", "größe"] {
        for name in configuration_files() {
            let ours = join_path(root, name);
            let theirs = std::path::Path::new(root).join(name);
            assert_eq!(std::path::Path::new(&ours), theirs.as_path());
        }
    }
}

#[test]
fn the_located_paths_are_in_candidate_order() {
    let mut files = Snapshot::new();
    files.insert("root/.muse/config", Node::File(String::new()));
    files.insert("root/.muse.toml", Node::File(String::new()));
    files.insert("root/.lift/config.toml", Node::File(String::new()));
    files.insert("root", Node::Directory);
    assert_eq!(
        locate_files("root", &files),
        Ok(vec![
            String::from("root/.lift/config.toml"),
            String::from("root/.muse.toml"),
            String::from("root/.muse/config"),
        ])
    );
}

#[test]
fn a_root_with_a_trailing_separator_is_searched_alike() {
    let mut files = Snapshot::new();
    files.insert("root/", Node::Directory);
    files.insert("root/.lift.toml", Node::File(String::new()));
    assert_eq!(locate_files("root/", &files), Ok(vec![String::from("root/.lift.toml")]));
}

#[test]
fn only_regular_files_are_located() {
    let mut files = Snapshot::new();
    files.insert("root", Node::Directory);
    files.insert("root/.lift/config.toml", Node::Directory);
    files.insert("root/.lift.toml", Node::Unreadable(String::from("permission denied")));
    files.insert("root/.muse.toml.bak", Node::File(String::new()));
    assert_eq!(locate_files("root", &files), Ok(vec![String::from("root/.lift.toml")]));
}

#[test]
fn an_empty_directory_holds_no_configs() {
    let mut files = Snapshot::new();
    files.insert("empty", Node::Directory);
    assert_eq!(locate_files("empty", &files), Ok(Vec::new()));
}

#[test]
fn a_root_that_is_not_there_is_reported() {
    let files = Snapshot::new();
    assert_eq!(
        locate_files("missing", &files),
        Err(ConfigError::FolderNotFound(String::from("missing")))
    );
}

#[test]
fn a_root_that_is_a_file_is_reported() {
    let mut files = Snapshot::new();
    files.insert("root", Node::File(String::from("not a directory")));
    files.insert("root/.lift.toml", Node::File(String::new()));
    assert_eq!(
        locate_files("root", &files),
        Err(ConfigError::FolderNotFound(String::from("root")))
    );
}

#[test]
fn a_snapshot_answers_with_what_was_written_last() {
    let mut files = Snapshot::new();
    assert_eq!(files.get("a"), None);
    assert!(!files.is_dir("a"));
    assert!(!files.is_file("a"));
    files.insert("a", Node::Directory);
    assert_eq!(files.get("a"), Some(&Node::Directory));
    assert!(files.is_dir("a"));
    assert!(!files.is_file("a"));
    files.insert("b", Node::Unreadable(String::from("why")));
    files.insert("a", Node::File(String::from("text")));
    assert_eq!(files.get("a"), Some(&Node::File(String::from("text"))));
    assert!(!files.is_dir("a"));
    assert!(files.is_file("a"));
    assert_eq!(files.get("b"), Some(&Node::Unreadable(String::from("why"))));
    assert!(files.is_file("b"));
    assert_eq!(files.get("a/"), None);
    assert_eq!(files.get(""), None);
}
