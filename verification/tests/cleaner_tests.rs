use clean_repo::cleaner::{CleanError, CleanResult, Cleaner, RunState};
use clean_repo::cli::Cli;

fn cli(execute: bool, patterns: Vec<&str>) -> Cli {
    Cli {
        execute,
        ignore_patterns: patterns.into_iter().map(|s| s.to_string()).collect(),
        verbose: false,
        quiet: false,
    }
}

fn paths(v: Vec<&str>) -> Vec<String> {
    v.into_iter().map(|s| s.to_string()).collect()
}

#[test]
fn test_new_result_is_empty() {
    let result = CleanResult::new();
    assert!(result.deleted.is_empty());
    assert!(result.excluded.is_empty());
    assert!(result.failed.is_empty());
}

#[test]
fn test_missing_gitignore_aborts() {
    let cli = cli(false, vec![]);
    let err = match Cleaner::new(&cli, "/repo/".to_string(), false) {
        Err(e) => e,
        Ok(_) => panic!("expected an error"),
    };
    assert!(matches!(err, CleanError::NoGitignore { root } if root == "/repo/"));
}

#[test]
fn test_invalid_pattern_aborts_before_selection() {
    let cli = cli(true, vec!["["]);
    let err = match Cleaner::new(&cli, "/repo/".to_string(), true) {
        Err(e) => e,
        Ok(_) => panic!("expected an error"),
    };
    assert!(matches!(err, CleanError::InvalidPattern { pattern } if pattern == "["));
}

#[test]
fn test_empty_input_reports_success_with_empty_result() {
    let cli = cli(true, vec!["*.log"]);
    let cleaner = Cleaner::new(&cli, "/repo/".to_string(), true).unwrap();
    match cleaner.run(&Vec::new()) {
        RunState::EmptyInput { result } => {
            assert!(result.deleted.is_empty());
            assert!(result.excluded.is_empty());
            assert!(result.failed.is_empty());
        },
        _ => panic!("expected the empty-input report"),
    }
}

#[test]
fn test_all_inputs_excluded_deletes_nothing() {
    let cli = cli(true, vec!["*.log"]);
    let cleaner = Cleaner::new(&cli, "/repo/".to_string(), true).unwrap();
    let ignored = paths(vec!["/repo/a.log", "/repo/sub/b.log"]);
    match cleaner.run(&ignored) {
        RunState::NoCandidates { result } => {
            assert!(result.deleted.is_empty());
            assert!(result.failed.is_empty());
            assert_eq!(result.excluded, paths(vec!["a.log", "sub/b.log"]));
        },
        _ => panic!("expected the no-candidates report"),
    }
}

#[test]
fn test_dry_run_builds_report_and_never_deletes() {
    let cli = cli(false, vec!["*.log"]);
    let cleaner = Cleaner::new(&cli, "/repo/".to_string(), true).unwrap();
    let ignored = paths(vec!["/repo/a.log", "/repo/build/out.bin", "/repo/cache.tmp"]);
    match cleaner.run(&ignored) {
        RunState::DryRunReport { result } => {
            // Every non-excluded input is reported, as given, before any
            // deletion could be attempted; a dry run can produce no failure.
            assert_eq!(result.deleted, paths(vec!["/repo/build/out.bin", "/repo/cache.tmp"]));
            assert_eq!(result.excluded, paths(vec!["a.log"]));
            assert!(result.failed.is_empty());
        },
        _ => panic!("expected the dry-run report"),
    }
}

#[test]
fn test_empty_pattern_set_excludes_nothing() {
    let cli = cli(false, vec![]);
    let cleaner = Cleaner::new(&cli, "/repo/".to_string(), true).unwrap();
    let ignored = paths(vec!["/repo/a.log", "/repo/b.tmp"]);
    match cleaner.run(&ignored) {
        RunState::DryRunReport { result } => {
            assert_eq!(result.deleted, ignored);
            assert!(result.excluded.is_empty());
            assert!(result.failed.is_empty());
        },
        _ => panic!("expected the dry-run report"),
    }
}

#[test]
fn test_execute_isolates_failures_per_item() {
    let cli = cli(true, vec![]);
    let cleaner = Cleaner::new(&cli, "/repo/".to_string(), true).unwrap();
    let ignored = paths(vec!["/repo/deletable.tmp", "/repo/locked.tmp"]);
    let mut executor = match cleaner.run(&ignored) {
        RunState::Executing { executor } => executor,
        _ => panic!("expected execute mode"),
    };
    // First candidate deletes fine; the second fails, and the run goes on.
    assert_eq!(executor.current(), Some("/repo/deletable.tmp".to_string()));
    executor.record_outcome(None);
    assert_eq!(executor.current(), Some("/repo/locked.tmp".to_string()));
    executor.record_outcome(Some("permission denied".to_string()));
    assert!(executor.is_done());
    assert_eq!(executor.current(), None);
    let result = executor.into_result();
    assert_eq!(result.deleted, paths(vec!["/repo/deletable.tmp"]));
    assert_eq!(
        result.failed,
        vec![("/repo/locked.tmp".to_string(), "permission denied".to_string())],
    );
    assert!(!result.failed[0].1.is_empty());
}

#[test]
fn test_run_partitions_every_input() {
    let cli = cli(true, vec!["*.log", "node_modules"]);
    let cleaner = Cleaner::new(&cli, "/repo/".to_string(), true).unwrap();
    let ignored = paths(vec![
        "/repo/a.log",
        "/repo/keep.bin",
        "/repo/node_modules/pkg/index.js",
        "/repo/sub/deep/b.log",
        "/repo/cache.tmp",
    ]);
    let mut executor = match cleaner.run(&ignored) {
        RunState::Executing { executor } => executor,
        _ => panic!("expected execute mode"),
    };
    let mut attempted = Vec::new();
    while let Some(path) = executor.current() {
        attempted.push(path.clone());
        if path.ends_with(".tmp") {
            executor.record_outcome(Some("busy".to_string()));
        } else {
            executor.record_outcome(None);
        }
    }
    let result = executor.into_result();
    // The three buckets are disjoint and together cover every input.
    assert_eq!(result.deleted, paths(vec!["/repo/keep.bin"]));
    assert_eq!(result.failed, vec![("/repo/cache.tmp".to_string(), "busy".to_string())]);
    assert_eq!(
        result.excluded,
        paths(vec!["a.log", "node_modules/pkg/index.js", "sub/deep/b.log"]),
    );
    assert_eq!(attempted, paths(vec!["/repo/keep.bin", "/repo/cache.tmp"]));
    assert_eq!(
        result.deleted.len() + result.excluded.len() + result.failed.len(),
        ignored.len(),
    );
}
