use compdb::ancestry::is_configure_command;
use compdb::wrapper::{
    LogFileError, WrapperStep, get_cc_compiler, get_cxx_compiler, get_log_file, has_generate_env,
    has_generate_flag, plan_invocation, should_generate,
};

// ==================== is_configure_command ====================

#[test]
fn detects_configure_in_current_dir() {
    assert!(is_configure_command("./configure\0--prefix=/usr\0"));
}

#[test]
fn detects_configure_with_absolute_path() {
    assert!(is_configure_command(
        "/home/user/project/configure\0--enable-feature\0"
    ));
}

#[test]
fn detects_configure_without_args() {
    assert!(is_configure_command("./configure\0"));
}

#[test]
fn detects_bare_configure() {
    assert!(is_configure_command("configure\0"));
}

#[test]
fn rejects_empty_cmdline() {
    assert!(!is_configure_command(""));
}

#[test]
fn rejects_non_configure_command() {
    assert!(!is_configure_command("/usr/bin/gcc\0-c\0main.c\0"));
}

#[test]
fn rejects_configure_as_argument() {
    assert!(!is_configure_command("/bin/sh\0./configure\0"));
}

#[test]
fn rejects_configure_substring() {
    assert!(!is_configure_command("./configure-cache\0"));
}

#[test]
fn rejects_reconfigure() {
    assert!(!is_configure_command("./reconfigure\0"));
}

#[test]
fn rejects_configure_prefix() {
    assert!(!is_configure_command("./configure.sh\0"));
}

#[test]
fn detects_configure_with_trailing_separator() {
    assert!(is_configure_command("./configure/\0--prefix=/usr\0"));
    assert!(!is_configure_command("/\0"));
}

// ==================== has_generate_flag ====================

#[test]
fn returns_true_when_flag_present() {
    let args = vec!["compdb-cc".to_string(), "--generate".to_string()];
    assert!(has_generate_flag(&args));
}

#[test]
fn returns_false_when_flag_absent() {
    let args = vec![
        "compdb-cc".to_string(),
        "-c".to_string(),
        "main.c".to_string(),
    ];
    assert!(!has_generate_flag(&args));
}

#[test]
fn returns_true_when_flag_at_end() {
    let args = vec![
        "compdb-cc".to_string(),
        "-c".to_string(),
        "main.c".to_string(),
        "--generate".to_string(),
    ];
    assert!(has_generate_flag(&args));
}

#[test]
fn returns_false_for_empty_args() {
    let args: Vec<String> = vec![];
    assert!(!has_generate_flag(&args));
}

#[test]
fn returns_false_for_similar_flags() {
    let args = vec![
        "compdb-cc".to_string(),
        "--generated".to_string(),
        "-generate".to_string(),
        "generate".to_string(),
    ];
    assert!(!has_generate_flag(&args));
}

// ==================== compiler and log-path configuration ====================

#[test]
fn cc_compiler_defaults_to_clang() {
    assert_eq!(get_cc_compiler(None), "clang");
}

#[test]
fn cc_compiler_honours_configuration() {
    assert_eq!(get_cc_compiler(Some("gcc".to_string())), "gcc");
    assert_eq!(
        get_cc_compiler(Some("/usr/local/bin/gcc-12".to_string())),
        "/usr/local/bin/gcc-12"
    );
}

#[test]
fn cxx_compiler_defaults_to_clangpp() {
    assert_eq!(get_cxx_compiler(None), "clang++");
}

#[test]
fn cxx_compiler_honours_configuration() {
    assert_eq!(get_cxx_compiler(Some("g++".to_string())), "g++");
    assert_eq!(
        get_cxx_compiler(Some("/usr/local/bin/g++-12".to_string())),
        "/usr/local/bin/g++-12"
    );
}

#[test]
fn log_file_requires_configuration() {
    assert_eq!(get_log_file(None), Err(LogFileError::NotSet));
}

#[test]
fn log_file_rejects_relative_paths() {
    assert_eq!(
        get_log_file(Some("custom_log.txt".to_string())),
        Err(LogFileError::NotAbsolute)
    );
    assert_eq!(
        get_log_file(Some("subdir/log.txt".to_string())),
        Err(LogFileError::NotAbsolute)
    );
    assert_eq!(
        get_log_file(Some("../logs/cc_hook.txt".to_string())),
        Err(LogFileError::NotAbsolute)
    );
}

#[test]
fn log_file_accepts_absolute_paths() {
    assert_eq!(
        get_log_file(Some("/tmp/build/compile_log.txt".to_string())),
        Ok("/tmp/build/compile_log.txt".to_string())
    );
    assert_eq!(
        get_log_file(Some("/cc_hook.txt".to_string())),
        Ok("/cc_hook.txt".to_string())
    );
}

// ==================== generate-mode decision ====================

#[test]
fn generate_env_needs_a_non_empty_value() {
    assert!(!has_generate_env(None));
    assert!(has_generate_env(Some(&"1".to_string())));
    assert!(has_generate_env(Some(&"true".to_string())));
    assert!(has_generate_env(Some(&"yes".to_string())));
    assert!(!has_generate_env(Some(&"".to_string())));
}

#[test]
fn should_generate_by_flag_or_env() {
    let with_flag = vec!["compdb-cc".to_string(), "--generate".to_string()];
    let plain = vec!["compdb-cc".to_string(), "-c".to_string(), "main.c".to_string()];
    assert!(should_generate(&with_flag, None));
    assert!(should_generate(&plain, Some(&"1".to_string())));
    assert!(should_generate(&with_flag, Some(&"1".to_string())));
    assert!(!should_generate(&plain, None));
}

// ==================== plan_invocation ====================

#[test]
fn relative_log_path_is_rejected_before_any_side_effect() {
    let args = vec!["-c".to_string(), "main.c".to_string()];
    let plan = plan_invocation("relative/log.txt", false, "/project", "cc".to_string(), args);
    assert!(matches!(plan, WrapperStep::RejectedPath));
}

#[test]
fn suppressed_invocation_substitutes_without_logging() {
    let args = vec!["-c".to_string(), "main.c".to_string()];
    let plan = plan_invocation("/tmp/log.txt", true, "/project", "cc".to_string(), args.clone());
    match plan {
        WrapperStep::Skip { sub } => {
            assert_eq!(sub.compiler, "cc");
            assert_eq!(sub.args, args);
        }
        _ => panic!("expected a skip plan"),
    }
}

#[test]
fn normal_invocation_appends_one_record_line() {
    let args = vec!["-c".to_string(), "main.c".to_string()];
    let plan = plan_invocation(
        "/tmp/log.txt",
        false,
        "/project",
        "cc".to_string(),
        args.clone(),
    );
    match plan {
        WrapperStep::Append { lock_path, line, sub } => {
            assert_eq!(lock_path, "/tmp/log.lock");
            assert_eq!(
                line,
                r#"{"wd":"/project","compiler":"cc","args":["-c","main.c"]}"#
            );
            assert_eq!(sub.compiler, "cc");
            assert_eq!(sub.args, args);
        }
        _ => panic!("expected an append plan"),
    }
}
