use ticket_commit_msg::environment::Environment;

fn environment_with(
    executable: &str,
    commit_msg_tmp_file: Option<&str>,
    prefix: Option<&str>,
) -> Environment {
    Environment {
        executable: executable.to_string(),
        commit_msg_tmp_file: commit_msg_tmp_file.map(|s| s.to_string()),
        prefix: prefix.map(|s| s.to_string()),
    }
}

#[test]
fn commit_msg_file_is_the_first_argument() {
    let env = environment_with("app", Some(".git/COMMIT_EDITMSG"), None);
    assert_eq!(env.commit_msg_file(), Ok(".git/COMMIT_EDITMSG".to_string()));
}

#[test]
fn missing_commit_msg_file_is_reported() {
    let env = environment_with("app", None, None);
    assert_eq!(
        env.commit_msg_file(),
        Err("Commit message temporary file should be passed as first argument".to_string())
    );
}

#[test]
fn usage_is_shown_only_without_a_commit_msg_file() {
    assert!(environment_with("app", None, None).show_usage());
    assert!(!environment_with("app", Some("msg"), None).show_usage());
}

#[test]
fn prefix_is_handed_back_as_configured() {
    assert_eq!(environment_with("app", None, None).prefix(), None);
    assert_eq!(
        environment_with("app", None, Some("Ticket: ")).prefix(),
        Some("Ticket: ".to_string())
    );
}

#[test]
fn executable_name_is_the_last_path_component() {
    assert_eq!(
        environment_with("/usr/local/bin/app", Some("msg"), None).executable_name(),
        "app"
    );
    assert_eq!(environment_with("app", Some("msg"), None).executable_name(), "app");
    assert_eq!(environment_with("app.exe", Some("msg"), None).executable_name(), "app.exe");
}

#[test]
fn executable_name_ignores_trailing_separators_and_dot_components() {
    assert_eq!(environment_with("bin/", Some("msg"), None).executable_name(), "bin");
    assert_eq!(environment_with("usr//bin//", Some("msg"), None).executable_name(), "bin");
    assert_eq!(environment_with("bin/.", Some("msg"), None).executable_name(), "bin");
    assert_eq!(environment_with("bin/././", Some("msg"), None).executable_name(), "bin");
    assert_eq!(environment_with("./app", Some("msg"), None).executable_name(), "app");
}

#[test]
fn executable_name_of_a_path_without_a_file_name_component() {
    assert_eq!(environment_with("", Some("msg"), None).executable_name(), "");
    assert_eq!(environment_with("/", Some("msg"), None).executable_name(), "");
    assert_eq!(environment_with(".", Some("msg"), None).executable_name(), "");
    assert_eq!(environment_with("bin/..", Some("msg"), None).executable_name(), "..");
}
