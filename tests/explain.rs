use disk_state::{
    build_command_start, check_working_dir, is_build_like, manifold_path, select_build_log,
    single_target_pattern, ExplainError,
};

fn strings(v: &[&str]) -> Vec<String> {
    v.iter().map(|s| s.to_string()).collect()
}

#[test]
fn build_like_commands() {
    for c in ["build", "test", "run", "install"] {
        assert!(is_build_like(&c.to_owned()));
    }
    for c in ["explain", "clean", "Build", ""] {
        assert!(!is_build_like(&c.to_owned()));
    }
}

#[test]
fn latest_build_like_log_is_chosen() {
    let commands = vec![
        Some("build".to_owned()),
        Some("test".to_owned()),
        None,
        Some("clean".to_owned()),
    ];
    assert_eq!(select_build_log(&commands), Ok(1));
}

#[test]
fn no_build_like_log_is_an_error() {
    let commands = vec![None, Some("clean".to_owned())];
    assert_eq!(select_build_log(&commands), Err(ExplainError::NoRecentBuild));
    assert_eq!(select_build_log(&vec![]), Err(ExplainError::NoRecentBuild));
}

#[test]
fn working_dir_must_match() {
    assert_eq!(check_working_dir(&"/a".to_owned(), &"/a".to_owned()), Ok(()));
    assert_eq!(
        check_working_dir(&"/a".to_owned(), &"/b".to_owned()),
        Err(ExplainError::WorkingDirMismatch)
    );
}

#[test]
fn build_subcommand_is_found() {
    let args = strings(&["buck2", "--isolation-dir", "x", "build", "//a:b", "build"]);
    assert_eq!(build_command_start(&args), Ok(3));
    let args = strings(&["buck2", "test", "//a:b"]);
    assert_eq!(build_command_start(&args), Err(ExplainError::OnlyBuildSupported));
}

#[test]
fn exactly_one_target_pattern() {
    assert_eq!(single_target_pattern(&strings(&["//a:b"])), Ok("//a:b".to_owned()));
    assert_eq!(
        single_target_pattern(&strings(&["//a:b", "//c:d"])),
        Err(ExplainError::OnlyOneTargetPattern)
    );
    assert_eq!(single_target_pattern(&vec![]), Err(ExplainError::OnlyOneTargetPattern));
}

#[test]
fn upload_path_names_the_trace() {
    assert_eq!(manifold_path(false, "abc"), None);
    assert_eq!(manifold_path(true, "abc"), Some("flat/abc-explain.html".to_owned()));
}
