use clonetree::{validate, Error, Filter, Options};

fn build(patterns: &[&str]) -> Filter {
    let mut opts = Options::new();
    for p in patterns {
        opts = opts.glob(p);
    }
    match Filter::build(&opts.globs) {
        Ok(f) => f,
        Err(_) => panic!("expected the patterns to compile"),
    }
}

#[test]
fn no_patterns_includes_everything() {
    let f = build(&[]);
    assert!(f.included("anything.bin", false));
    assert!(f.included("deep/nested/path.txt", false));
    assert!(f.included("somedir", true));
}

#[test]
fn include_matches_file_itself() {
    let f = build(&["**/*.txt"]);
    assert!(f.included("a.txt", false));
    assert!(f.included("data/b.txt", false));
    assert!(!f.included("a.log", false));
    assert!(!f.included("data/b.log", false));
}

#[test]
fn include_matches_through_ancestor_directory() {
    // A directory-name include admits everything below that directory.
    let f = build(&["data"]);
    assert!(f.included("data/file.txt", false));
    assert!(f.included("data/sub/debug.log", false));
    assert!(!f.included("other/file.txt", false));
}

#[test]
fn exclude_wins_over_include() {
    let f = build(&["**/*.txt", "!data"]);
    assert!(f.included("a.txt", false));
    assert!(!f.included("data/b.txt", false));
}

#[test]
fn exclude_matches_through_ancestor_directory() {
    let f = build(&["!target"]);
    assert!(!f.included("target/build.out", false));
    assert!(!f.included("target/deep/nested.txt", false));
    assert!(f.included("src/lib.rs", false));
}

#[test]
fn excluded_dir_prunes_whole_subtree() {
    let f = build(&["!target"]);
    assert!(f.excluded_dir("target"));
    assert!(f.excluded_dir("target/deep"));
    assert!(!f.excluded_dir("src"));
}

#[test]
fn exclude_marker_is_stripped_before_compiling() {
    // "!*.log" must behave as the glob "*.log", not as a glob that
    // starts with a literal exclamation mark.
    let f = build(&["!*.log"]);
    assert!(!f.included("debug.log", false));
    assert!(f.included("notes.txt", false));
}

#[test]
fn options_builders_accumulate() {
    let opts = Options::new().glob("**/*.rs").glob("!target/**").overwrite(true).no_reflink(true);
    assert_eq!(opts.globs, vec!["**/*.rs".to_string(), "!target/**".to_string()]);
    assert!(opts.overwrite);
    assert!(opts.no_reflink);

    let fresh = Options::default();
    assert!(fresh.globs.is_empty());
    assert!(!fresh.overwrite);
    assert!(!fresh.no_reflink);
}

#[test]
fn validate_decides_destination_creation() {
    assert_eq!(validate(true, true, false, false, "s", "d").ok(), Some(true));
    assert_eq!(validate(true, true, true, true, "s", "d").ok(), Some(false));
    assert!(matches!(
        validate(false, false, false, false, "s", "d"),
        Err(Error::SourceNotFound { .. })
    ));
    assert!(matches!(
        validate(true, false, false, false, "s", "d"),
        Err(Error::SourceNotDirectory { .. })
    ));
    assert!(matches!(
        validate(true, true, true, false, "s", "d"),
        Err(Error::DestinationExists { .. })
    ));
}
