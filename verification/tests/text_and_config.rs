use rustc_internal_docs::logging::{format_log_line, log_level, LogLevel};
use rustc_internal_docs::text::{text_join, format_signed, format_unsigned, push_path, tabs};
use rustc_internal_docs::{Config, ErrorHandling, Stages};

#[test]
fn numbers_are_written_in_decimal() {
    assert_eq!(format_unsigned(0), "0");
    assert_eq!(format_unsigned(7), "7");
    assert_eq!(format_unsigned(10), "10");
    assert_eq!(format_unsigned(1234567890), "1234567890");
    assert_eq!(format_unsigned(u64::MAX), "18446744073709551615");
    assert_eq!(format_signed(-1), "-1");
    assert_eq!(format_signed(42), "42");
}

#[test]
fn tabs_indent() {
    assert_eq!(tabs(0), "");
    assert_eq!(tabs(3), "\t\t\t");
}

#[test]
fn paths_are_pushed_like_a_path_buffer() {
    assert_eq!(push_path("/home/user", ".rc"), "/home/user/.rc");
    assert_eq!(push_path("/home/user/", ".rc"), "/home/user/.rc");
    assert_eq!(push_path("", ".rc"), ".rc");
    assert_eq!(push_path("relative", "/absolute"), "/absolute");
    assert_eq!(push_path("dir", ""), "dir/");
    assert_eq!(text_join("ab", "cd"), "abcd");
    let mut expected = std::path::PathBuf::from("/srv/rust");
    expected.push("build");
    assert_eq!(push_path("/srv/rust", "build"), expected.to_str().unwrap());
}

#[test]
fn the_config_file_lives_in_the_home_directory() {
    assert_eq!(
        Config::default_config_file(Some("/home/michael".to_string())),
        "/home/michael/.rustc-internal-docs.toml"
    );
    assert_eq!(Config::default_config_file(None), ".rustc-internal-docs.toml");
}

#[test]
fn default_config() {
    let cfg = Config::default();
    assert_eq!(cfg.rust_dir, "/tmp/rust-lang/rust");
    assert_eq!(cfg.git_repo, "git@github.com:Michael-F-Bryan/rustc-internal-docs.git");
    assert_eq!(cfg.stages, Stages { skip_git_update: false, skip_upload: false });
    assert_eq!(cfg.error_handling, ErrorHandling { fail_fast: false, upload_with_errors: false });
    assert!(cfg == Config::default());
    let mut other = Config::default();
    other.stages.skip_upload = true;
    assert!(cfg != other);
}

#[test]
fn verbosity_picks_the_log_level() {
    assert_eq!(log_level(0), LogLevel::Warn);
    assert_eq!(log_level(1), LogLevel::Info);
    assert_eq!(log_level(2), LogLevel::Debug);
    assert_eq!(log_level(3), LogLevel::Trace);
    assert_eq!(log_level(40), LogLevel::Trace);
}

#[test]
fn log_lines_read_time_level_message() {
    assert_eq!(
        format_log_line("2024-01-01 10:00:00", "INFO", "Generating documentation"),
        "2024-01-01 10:00:00 [INFO] - Generating documentation"
    );
}
