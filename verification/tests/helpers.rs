use rustc_internal_docs::errors::{Error, ErrorKind, ProcessOutput};
use rustc_internal_docs::helpers::{
    command_from_words, command_outcome, parse_command, pretty_print_return_code, print_backtrace,
    read_file_failure, recursive_copy_outcome, CommandLine,
};

fn exited(code: Option<i32>, stdout: &str) -> ProcessOutput {
    ProcessOutput { code, stdout: stdout.as_bytes().to_vec(), stderr: Vec::new() }
}

fn plan(cmd: &str) -> CommandLine {
    match parse_command(cmd) {
        Ok(line) => line,
        Err(e) => panic!("{} was refused: {}", cmd, e.display()),
    }
}

#[test]
fn run_a_passing_command() {
    let line = plan("true");
    assert_eq!(line.program, "true");
    assert!(line.args.is_empty());
    let outcome = command_outcome("true", &line.program, Ok(exited(Some(0), "")));
    assert!(outcome.is_ok());
}

#[test]
fn run_a_failing_command() {
    let line = plan("false");
    assert_eq!(line.program, "false");
    let outcome = command_outcome("false", &line.program, Ok(exited(Some(1), "")));
    assert!(outcome.is_err());
    let e = outcome.unwrap_err();
    assert_eq!(e.display(), "Command failed with return code 1, \"false\"");
    assert!(matches!(e.kind, ErrorKind::CommandFailed(ref c, ref o) if c == "false" && o.code == Some(1)));
}

#[test]
fn detect_running_nonexistent_commands() {
    let line = plan("foo bar baz");
    assert_eq!(line.program, "foo");
    assert_eq!(line.args, vec!["bar".to_string(), "baz".to_string()]);
    let not_found = Error::io("No such file or directory (os error 2)".to_string());
    let outcome = command_outcome("foo bar baz", &line.program, Err(not_found));
    assert!(outcome.is_err());
    let e = outcome.unwrap_err();
    assert_eq!(
        e.iter_messages(),
        vec!["Command not found, foo".to_string(), "No such file or directory (os error 2)".to_string()]
    );
}

#[test]
fn command_with_spaces_in_it() {
    let line = plan(r#"echo "Hello World""#);
    assert_eq!(line.program, "echo");
    assert_eq!(line.args.len(), 1);
    let printed = line.args.join(" ");
    assert!(printed.contains("Hello World"));
    assert!(!printed.contains('"'));
}

#[test]
fn a_signal_is_not_a_success() {
    let outcome = command_outcome("sleep 100", "sleep", Ok(exited(None, "")));
    let e = outcome.unwrap_err();
    assert_eq!(e.display(), "Command failed, \"sleep 100\"");
}

#[test]
fn a_successful_command_keeps_its_output() {
    let outcome = command_outcome("echo hi", "echo", Ok(exited(Some(0), "hi\n"))).unwrap();
    assert_eq!(outcome.stdout, b"hi\n".to_vec());
    assert_eq!(outcome.code, Some(0));
}

#[test]
fn unbalanced_quotes_are_an_invalid_command() {
    let e = parse_command("echo \"unterminated").unwrap_err();
    assert_eq!(e.display(), "Invalid command");
    assert!(e.cause.is_none());
}

#[test]
fn an_empty_command_is_refused() {
    let e = parse_command("   ").unwrap_err();
    assert_eq!(e.display(), "Can't execute an empty command");
    let e = command_from_words(Some(Vec::new())).unwrap_err();
    assert_eq!(e.display(), "Can't execute an empty command");
    let e = command_from_words(None).unwrap_err();
    assert_eq!(e.display(), "Invalid command");
}

#[test]
fn command_lines_are_shown_word_by_word() {
    let line = CommandLine::new("git", &["clone", "url", "/tmp/my rust"]);
    assert_eq!(line.program, "git");
    assert_eq!(line.args, vec!["clone".to_string(), "url".to_string(), "/tmp/my rust".to_string()]);
    assert_eq!(line.text(), "git clone url \"/tmp/my rust\"");
    assert_eq!(CommandLine::new("true", &[]).text(), "true");
    let commit = CommandLine::new("git", &["commit", "-m", "updated documentation at 2024-01-01 10:00:00"]);
    assert_eq!(commit.text(), r#"git commit -m "updated documentation at 2024-01-01 10:00:00""#);
    let odd = CommandLine::new("echo", &["say \"hi\"", "back\\slash", ""]);
    assert_eq!(odd.text(), r#"echo "say \"hi\"" "back\\slash" """#);
    // What is shown splits back into the same words.
    let again = parse_command(&odd.text()).unwrap();
    assert_eq!(again.program, "echo");
    assert_eq!(again.args, odd.args);
    let again = parse_command(&commit.text()).unwrap();
    assert_eq!(again.args, commit.args);
}

#[test]
fn words_become_program_and_arguments() {
    let line = command_from_words(Some(vec!["git".to_string(), "pull".to_string(), "origin".to_string()]))
        .unwrap();
    assert_eq!(line.program, "git");
    assert_eq!(line.args, vec!["pull".to_string(), "origin".to_string()]);
}

#[test]
fn shell_quoting_is_honoured() {
    let line = plan(r#"git commit -m "updated documentation at 2024-01-01 10:00:00""#);
    assert_eq!(line.program, "git");
    assert_eq!(
        line.args,
        vec!["commit".to_string(), "-m".to_string(), "updated documentation at 2024-01-01 10:00:00".to_string()]
    );
    let line = plan("rsync -a 'a b'/ c/");
    assert_eq!(line.args, vec!["-a".to_string(), "a b/".to_string(), "c/".to_string()]);
}

#[test]
fn return_codes_are_printed() {
    assert_eq!(pretty_print_return_code(None), "");
    assert_eq!(pretty_print_return_code(Some(1)), " with return code 1");
    assert_eq!(pretty_print_return_code(Some(0)), " with return code 0");
    assert_eq!(pretty_print_return_code(Some(-15)), " with return code -15");
    assert_eq!(pretty_print_return_code(Some(i32::MIN)), " with return code -2147483648");
    assert_eq!(pretty_print_return_code(Some(i32::MAX)), " with return code 2147483647");
}

#[test]
fn return_codes_read_back() {
    for code in [0, 1, -1, 42, 255, -15, i32::MIN, i32::MAX] {
        let text = pretty_print_return_code(Some(code));
        let digits = text.strip_prefix(" with return code ").unwrap();
        assert_eq!(digits.parse::<i32>(), Ok(code));
    }
}

#[test]
fn backtraces_indent_the_causes() {
    let e = Error::io("permission denied".to_string())
        .chain_err("Couldn't open config.toml".to_string())
        .chain_err("Couldn't make sure the config.toml is set properly".to_string());
    assert_eq!(
        print_backtrace(&e, 0),
        vec![
            "Error: Couldn't make sure the config.toml is set properly".to_string(),
            "\tCaused By: Couldn't open config.toml".to_string(),
            "\tCaused By: permission denied".to_string(),
        ]
    );
    assert_eq!(
        print_backtrace(&Error::msg("boom".to_string()), 2),
        vec!["\t\tError: boom".to_string()]
    );
}

#[test]
fn a_copy_reports_the_last_failure() {
    assert!(recursive_copy_outcome(Ok(Vec::new())).is_ok());
    let errors = vec![Error::io("first".to_string()), Error::io("second".to_string())];
    let e = recursive_copy_outcome(Ok(errors)).unwrap_err();
    assert_eq!(e.display(), "second");
    let e = recursive_copy_outcome(Err(Error::io("no source".to_string()))).unwrap_err();
    assert_eq!(e.display(), "no source");
}

#[test]
fn read_failures_say_what_failed() {
    let e = read_file_failure("/etc/x.toml", false, Error::io("not found".to_string()));
    assert_eq!(e.iter_messages(), vec!["Couldn't open /etc/x.toml".to_string(), "not found".to_string()]);
    let e = read_file_failure("/etc/x.toml", true, Error::io("bad utf-8".to_string()));
    assert_eq!(e.iter_messages(), vec!["Couldn't read from the file".to_string(), "bad utf-8".to_string()]);
}

#[test]
fn every_kind_of_error_has_a_line() {
    let e = Error::from_kind(ErrorKind::DocGeneration(vec![
        ("libstd".to_string(), Error::msg("x".to_string())),
        ("libcore".to_string(), Error::msg("y".to_string())),
    ]));
    assert_eq!(e.display(), "Documentation generation failed with 2 errors");
    assert_eq!(Error::msg("plain".to_string()).display(), "plain");
    assert_eq!(Error::io("disk full".to_string()).display(), "disk full");
}
