use clonetree::{clone_tree, Entry, Error, Options, Plan};

fn file(rel: &str) -> Entry {
    Entry { rel_path: rel.to_string(), is_file: true }
}

fn dir(rel: &str) -> Entry {
    Entry { rel_path: rel.to_string(), is_file: false }
}

fn plan(entries: Vec<Entry>, options: &Options) -> Plan {
    match clone_tree(true, true, false, &entries, options, "src", "dest") {
        Ok(p) => p,
        Err(_) => panic!("expected a plan"),
    }
}

fn action_paths(p: &Plan) -> Vec<String> {
    p.actions.iter().map(|a| a.rel_path.clone()).collect()
}

#[test]
fn test_clone_tree_basic() {
    let entries = vec![file("file1.txt"), dir("subdir"), file("subdir/file2.txt")];
    let opts = Options::new();
    let p = plan(entries, &opts);

    assert_eq!(action_paths(&p), vec!["file1.txt", "subdir/file2.txt"]);
    assert!(p.create_dest_root);
    assert_eq!(p.actions[0].create_parent, None);
    assert_eq!(p.actions[1].create_parent, Some("subdir".to_string()));
}

#[test]
fn test_clone_tree_with_excludes() {
    let entries = vec![
        file("file.txt"),
        dir("target"),
        file("target/build.out"),
        dir(".git"),
        file(".git/config"),
    ];
    let opts = Options::new().glob("!target/**").glob("!.git/**");
    let p = plan(entries, &opts);

    assert_eq!(action_paths(&p), vec!["file.txt"]);
}

#[test]
fn test_clone_tree_with_positive_globs() {
    let entries = vec![
        file("include1.txt"),
        file("include2.txt"),
        file("exclude.log"),
        dir("data"),
        file("data/file.txt"),
        file("data/debug.log"),
    ];
    let opts = Options::new().glob("**/*.txt");
    let p = plan(entries, &opts);

    assert_eq!(action_paths(&p), vec!["include1.txt", "include2.txt", "data/file.txt"]);
}

#[test]
fn test_source_not_found() {
    let opts = Options::new();
    let result = clone_tree(false, false, false, &Vec::new(), &opts, "nonexistent", "dest");

    assert!(matches!(result, Err(Error::SourceNotFound { .. })));
    if let Err(Error::SourceNotFound { path }) = result {
        assert_eq!(path, "nonexistent");
    }
}

#[test]
fn test_source_not_directory() {
    let opts = Options::new();
    let result = clone_tree(true, false, false, &Vec::new(), &opts, "file.txt", "dest");

    assert!(matches!(result, Err(Error::SourceNotDirectory { .. })));
}

#[test]
fn test_destination_exists() {
    let opts = Options::new();
    let result = clone_tree(true, true, true, &Vec::new(), &opts, "src", "dest");

    assert!(matches!(result, Err(Error::DestinationExists { .. })));
    if let Err(Error::DestinationExists { path }) = result {
        assert_eq!(path, "dest");
    }
}

#[test]
fn test_overwrite_existing_files() {
    let entries = vec![
        file("file1.txt"),
        file("file2.txt"),
        dir("subdir"),
        file("subdir/file3.txt"),
    ];
    let opts = Options::new().overwrite(true);
    let p = match clone_tree(true, true, true, &entries, &opts, "src", "dest") {
        Ok(p) => p,
        Err(_) => panic!("expected a plan"),
    };

    // The pre-existing destination is merged into, not recreated; each
    // copied file replaces its counterpart, and nothing else is touched.
    assert!(!p.create_dest_root);
    assert!(p.remove_existing);
    assert_eq!(action_paths(&p), vec!["file1.txt", "file2.txt", "subdir/file3.txt"]);
    for a in &p.actions {
        assert_ne!(a.rel_path, "existing_file.txt");
        assert_ne!(a.rel_path, "subdir/existing_file.txt");
    }
}

#[test]
fn invalid_glob_reports_pattern_as_configured() {
    let opts = Options::new().glob("!a[");
    let result = clone_tree(true, true, false, &Vec::new(), &opts, "src", "dest");

    assert!(matches!(result, Err(Error::InvalidGlob { .. })));
    if let Err(Error::InvalidGlob { pattern, cause }) = result {
        assert_eq!(pattern, "!a[");
        assert!(!cause.is_empty());
    }
}

#[test]
fn invalid_glob_reports_first_offender() {
    let opts = Options::new().glob("ok/*.txt").glob("a[").glob("b[");
    let result = clone_tree(true, true, false, &Vec::new(), &opts, "src", "dest");

    if let Err(Error::InvalidGlob { pattern, .. }) = result {
        assert_eq!(pattern, "a[");
    } else {
        panic!("expected an invalid-glob error");
    }
}

#[test]
fn parent_directories_created_once() {
    let entries = vec![
        dir("deep"),
        dir("deep/nest"),
        file("deep/nest/a.txt"),
        file("deep/nest/b.txt"),
        file("deep/c.txt"),
    ];
    let opts = Options::new();
    let p = plan(entries, &opts);

    assert_eq!(p.actions[0].create_parent, Some("deep/nest".to_string()));
    assert_eq!(p.actions[1].create_parent, None);
    assert_eq!(p.actions[2].create_parent, Some("deep".to_string()));
}

#[test]
fn reflink_choice_does_not_change_copies() {
    let entries = || {
        vec![file("a.txt"), dir("d"), file("d/b.log"), file("d/c.txt")]
    };
    let with_reflink = plan(entries(), &Options::new().glob("**/*.txt").no_reflink(false));
    let without_reflink = plan(entries(), &Options::new().glob("**/*.txt").no_reflink(true));

    assert!(with_reflink.use_reflink);
    assert!(!without_reflink.use_reflink);
    assert_eq!(action_paths(&with_reflink), action_paths(&without_reflink));
    for (a, b) in with_reflink.actions.iter().zip(without_reflink.actions.iter()) {
        assert_eq!(a.create_parent, b.create_parent);
    }
}

#[test]
fn repeated_clone_plans_same_copies() {
    let entries = || {
        vec![file("x.txt"), dir("sub"), file("sub/y.txt")]
    };
    let opts = Options::new().overwrite(true);
    let first = match clone_tree(true, true, false, &entries(), &opts, "src", "dest") {
        Ok(p) => p,
        Err(_) => panic!("expected a plan"),
    };
    // After the first run the destination exists; overwrite lets the
    // second run proceed and plan the very same copies.
    let second = match clone_tree(true, true, true, &entries(), &opts, "src", "dest") {
        Ok(p) => p,
        Err(_) => panic!("expected a plan"),
    };

    assert_eq!(action_paths(&first), action_paths(&second));
    assert!(first.create_dest_root);
    assert!(!second.create_dest_root);
}
