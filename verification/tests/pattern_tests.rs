use clean_repo::patterns::PatternMatcher;

#[test]
fn test_empty_patterns_no_match() {
    let matcher = PatternMatcher::new(&Vec::new()).unwrap();
    assert!(!matcher.matches("test.log"));
}

#[test]
fn test_simple_pattern_match() {
    let patterns = vec!["*.log".to_string()];
    let matcher = PatternMatcher::new(&patterns).unwrap();

    assert!(matcher.matches("test.log"));
    assert!(matcher.matches("error.log"));
    assert!(!matcher.matches("test.txt"));
}

#[test]
fn test_multiple_patterns() {
    let patterns = vec!["*.log".to_string(), "*.tmp".to_string()];
    let matcher = PatternMatcher::new(&patterns).unwrap();

    assert!(matcher.matches("test.log"));
    assert!(matcher.matches("cache.tmp"));
    assert!(!matcher.matches("test.txt"));
}

#[test]
fn test_directory_pattern() {
    let patterns = vec!["node_modules".to_string()];
    let matcher = PatternMatcher::new(&patterns).unwrap();

    assert!(matcher.matches("node_modules"));
    assert!(matcher.matches("project/node_modules"));
}

#[test]
fn test_path_pattern() {
    let patterns = vec!["target/*".to_string()];
    let matcher = PatternMatcher::new(&patterns).unwrap();

    assert!(matcher.matches("target/debug"));
    assert!(matcher.matches("target/release"));
}

#[test]
fn test_invalid_pattern() {
    let patterns = vec!["[".to_string()]; // Invalid glob pattern
    let result = PatternMatcher::new(&patterns);
    assert!(result.is_err());
}

#[test]
fn test_first_invalid_pattern_reported() {
    let patterns = vec!["*.log".to_string(), "[".to_string(), "[x".to_string()];
    let err = match PatternMatcher::new(&patterns) {
        Err(e) => e,
        Ok(_) => panic!("expected an error"),
    };
    assert_eq!(err, "[");
}

#[test]
fn test_filename_pattern_matches_at_any_depth() {
    let patterns = vec!["*.log".to_string()];
    let matcher = PatternMatcher::new(&patterns).unwrap();

    assert!(matcher.matches("a/b/c/x.log"));
    assert!(!matcher.matches("a/b/c/x.txt"));
}

#[test]
fn test_directory_component_matches_at_any_depth() {
    let patterns = vec!["node_modules".to_string()];
    let matcher = PatternMatcher::new(&patterns).unwrap();

    assert!(matcher.matches("a/b/node_modules/pkg"));
    assert!(!matcher.matches("a/b/node_module/pkg"));
}

#[test]
fn test_question_mark_glob() {
    let patterns = vec!["c?t".to_string()];
    let matcher = PatternMatcher::new(&patterns).unwrap();

    assert!(matcher.matches("cat"));
    assert!(!matcher.matches("cart"));
}

#[test]
fn test_pattern_count() {
    let patterns = vec!["*.log".to_string(), "*.tmp".to_string()];
    let matcher = PatternMatcher::new(&patterns).unwrap();
    assert_eq!(matcher.len(), 2);
}

#[test]
fn test_recursive_wildcard_matches_across_depths() {
    let patterns = vec!["a/**/b".to_string()];
    let matcher = PatternMatcher::new(&patterns).unwrap();

    assert!(matcher.matches("a/x/b"));
    assert!(matcher.matches("a/x/y/b"));
    assert!(!matcher.matches("a/x/c"));
}

#[test]
fn test_triple_star_is_invalid() {
    let patterns = vec!["***".to_string()];
    assert!(PatternMatcher::new(&patterns).is_err());
}
