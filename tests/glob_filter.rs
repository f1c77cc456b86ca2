use cook::{should_include_path, GlobFilter};

fn filter(includes: &[&str], excludes: &[&str]) -> GlobFilter {
    let inc: Vec<String> = includes.iter().map(|s| s.to_string()).collect();
    let exc: Vec<String> = excludes.iter().map(|s| s.to_string()).collect();
    match GlobFilter::new(inc, exc) {
        Ok(f) => f,
        Err(_) => panic!("patterns should be valid"),
    }
}

#[test]
fn test_include_matches_directory_and_children() {
    let f = filter(&["**/build", "**/dist", "**/run.sh", "**/conf.yaml"], &[]);

    // Should match the directory itself
    assert!(should_include_path("foo/bar/build/bar.xml", &f));

    // Should match children of the directory
    assert!(should_include_path("foo/bar/build/output.txt", &f));
    assert!(should_include_path("foo/bar/build/nested/file.txt", &f));

    // Should not match unrelated paths
    assert!(!should_include_path("foo/bar/src/main.rs", &f));
}

#[test]
fn test_include_matches_files_directly() {
    let f = filter(&["**/build.rs"], &[]);

    // Should match the file itself
    assert!(should_include_path("foo/bar/build.rs", &f));
    assert!(should_include_path("build.rs", &f));

    // Should not match non-matching files
    assert!(!should_include_path("foo/bar/main.rs", &f));
}

#[test]
fn exclude_wins_over_include() {
    let f = filter(&["**/src"], &["**/generated"]);
    assert!(should_include_path("src/lib.rs", &f));
    assert!(!should_include_path("src/generated/out.rs", &f));
    assert!(!should_include_path("generated/src/x.rs", &f));
}

#[test]
fn empty_includes_accept_everything_not_excluded() {
    let f = filter(&[], &["**/*.map"]);
    assert!(should_include_path("a.js", &f));
    assert!(should_include_path("sub/b.js", &f));
    assert!(!should_include_path("a.js.map", &f));
    assert!(!should_include_path("deep/x/y.map", &f));
}

#[test]
fn excluded_ancestor_directory_excludes_its_files() {
    let f = filter(&[], &["**/node_modules"]);
    assert!(!should_include_path("web/node_modules/pkg/index.js", &f));
    assert!(should_include_path("web/src/index.js", &f));
}

#[test]
fn user_patterns_match_at_any_depth_and_drop_trailing_slashes() {
    let inc = vec!["build/".to_string()];
    let exc: Vec<String> = vec![];
    let f = match GlobFilter::from_user_patterns(&inc, &exc) {
        Ok(f) => f,
        Err(_) => panic!("valid pattern"),
    };
    assert!(should_include_path("x/y/build/out.o", &f));
    assert!(should_include_path("build/out.o", &f));
    assert!(!should_include_path("x/builder/out.o", &f));
}

#[test]
fn invalid_pattern_is_rejected() {
    let r = GlobFilter::new(vec!["**/ok".to_string(), "a[".to_string()], vec![]);
    match r {
        Err(cook::GlobError::Invalid(p)) => assert_eq!(p, "a["),
        Ok(_) => panic!("an unclosed class must be rejected"),
    }
}

#[test]
fn invalid_exclude_reported_after_valid_includes() {
    let r = GlobFilter::new(vec!["**/ok".to_string()], vec!["{a".to_string()]);
    match r {
        Err(cook::GlobError::Invalid(p)) => assert_eq!(p, "{a"),
        Ok(_) => panic!("an unclosed alternation must be rejected"),
    }
}

#[test]
fn deeply_nested_alternates_never_panic() {
    let pattern = format!("{}a{}", "{".repeat(260), "}".repeat(260));
    match GlobFilter::new(vec![], vec![pattern]) {
        Err(cook::GlobError::Invalid(p)) => assert!(p.starts_with("{{{")),
        Ok(f) => {
            let _ = should_include_path("a", &f);
        }
    }
}

#[test]
fn patterns_with_too_many_braces_are_refused() {
    let deep = format!("{}a{}", "{".repeat(1_000_000), "}".repeat(1_000_000));
    assert!(matches!(GlobFilter::new(vec![deep], vec![]), Err(cook::GlobError::Invalid(_))));
    let many = "{a,b}".repeat(251);
    assert!(matches!(GlobFilter::new(vec![], vec![many]), Err(cook::GlobError::Invalid(_))));
    let few = "{a,b}".repeat(3);
    assert!(GlobFilter::new(vec![few], vec![]).is_ok());
}
