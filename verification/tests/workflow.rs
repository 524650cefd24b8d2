use rustc_internal_docs::errors::{Error, ErrorKind};
use rustc_internal_docs::steps::{Action, Outcome, Step};
use rustc_internal_docs::{
    edit_rustbuild_config, generate_docs, run, setup_rustbuild_config_file, update_rust_repo,
    upload_docs, Config, RunStep, Stage,
};

fn stages_of(cfg: &Config, fail_at: Option<usize>) -> (Vec<Stage>, Result<(), Error>) {
    let mut results: Vec<Outcome> = Vec::new();
    let mut performed = Vec::new();
    loop {
        match run(cfg, &mut results) {
            RunStep::Perform(stage) => {
                if Some(performed.len()) == fail_at {
                    results.push(Outcome::Failed(Error::msg(format!("{:?} broke", stage))));
                } else {
                    results.push(Outcome::Done);
                }
                performed.push(stage);
            }
            RunStep::Finish(r) => return (performed, r),
        }
    }
}

#[test]
fn a_default_run_goes_through_every_stage() {
    let (stages, result) = stages_of(&Config::default(), None);
    assert_eq!(
        stages,
        vec![Stage::UpdateRepo, Stage::SetupConfig, Stage::GenerateDocs, Stage::UploadDocs]
    );
    assert!(result.is_ok());
}

#[test]
fn skipped_stages_are_not_run() {
    let mut cfg = Config::default();
    cfg.stages.skip_git_update = true;
    cfg.stages.skip_upload = true;
    let (stages, result) = stages_of(&cfg, None);
    assert_eq!(stages, vec![Stage::SetupConfig, Stage::GenerateDocs]);
    assert!(result.is_ok());
}

#[test]
fn a_failed_update_stops_the_run() {
    let (stages, result) = stages_of(&Config::default(), Some(0));
    assert_eq!(stages, vec![Stage::UpdateRepo]);
    let e = result.unwrap_err();
    assert_eq!(
        e.iter_messages(),
        vec!["Failed to update the rust repo".to_string(), "UpdateRepo broke".to_string()]
    );
}

#[test]
fn a_failed_setup_is_explained() {
    let (stages, result) = stages_of(&Config::default(), Some(1));
    assert_eq!(stages, vec![Stage::UpdateRepo, Stage::SetupConfig]);
    let e = result.unwrap_err();
    assert_eq!(e.display(), "Couldn't make sure the config.toml is set properly");
}

#[test]
fn a_failed_build_is_reported_unchanged() {
    let (stages, result) = stages_of(&Config::default(), Some(2));
    assert_eq!(stages, vec![Stage::UpdateRepo, Stage::SetupConfig, Stage::GenerateDocs]);
    let e = result.unwrap_err();
    assert_eq!(e.iter_messages(), vec!["GenerateDocs broke".to_string()]);
}

#[test]
fn a_failed_upload_is_explained() {
    let (_, result) = stages_of(&Config::default(), Some(3));
    let e = result.unwrap_err();
    assert_eq!(
        e.iter_messages(),
        vec!["Uploading docs failed".to_string(), "UploadDocs broke".to_string()]
    );
}

#[test]
fn uploads_with_errors_when_asked() {
    let mut cfg = Config::default();
    cfg.error_handling.upload_with_errors = true;
    let (stages, result) = stages_of(&cfg, Some(2));
    assert_eq!(
        stages,
        vec![Stage::UpdateRepo, Stage::SetupConfig, Stage::GenerateDocs, Stage::UploadDocs]
    );
    assert_eq!(result.unwrap_err().iter_messages(), vec!["GenerateDocs broke".to_string()]);
    cfg.stages.skip_upload = true;
    let (stages, _) = stages_of(&cfg, Some(2));
    assert_eq!(stages, vec![Stage::UpdateRepo, Stage::SetupConfig, Stage::GenerateDocs]);
}

fn run_of(action: Action) -> (String, Vec<String>, Option<String>) {
    match action {
        Action::Run(req) => (req.line.program, req.line.args, req.dir),
        other => panic!("expected a command, got {:?}", other),
    }
}

fn words(ws: &[&str]) -> Vec<String> {
    ws.iter().map(|w| w.to_string()).collect()
}

#[test]
fn docs_are_built_crate_by_crate() {
    let mut a = Vec::new();
    assert!(matches!(perform(generate_docs("/srv/rust", false, &mut a)),
        Action::ListDirectory(ref p) if p == "/srv/rust/src"));
    a.push(Outcome::Names(words(&["libstd", "tools", "libcore"])));
    match perform(generate_docs("/srv/rust", false, &mut a)) {
        Action::CheckEach(paths) => assert_eq!(paths, words(&[
            "/srv/rust/src/libstd/Cargo.toml",
            "/srv/rust/src/tools/Cargo.toml",
            "/srv/rust/src/libcore/Cargo.toml",
        ])),
        other => panic!("unexpected {:?}", other),
    }
    a.push(Outcome::Flags(vec![true, false, true]));
    assert_eq!(run_of(perform(generate_docs("/srv/rust", false, &mut a))),
        ("./x.py".to_string(), words(&["doc", "src/libstd"]), Some("/srv/rust".to_string())));
    a.push(Outcome::Done);
    assert_eq!(run_of(perform(generate_docs("/srv/rust", false, &mut a))),
        ("./x.py".to_string(), words(&["doc", "src/libcore"]), Some("/srv/rust".to_string())));
    a.push(Outcome::Done);
    assert!(matches!(generate_docs("/srv/rust", false, &mut a), Step::Finish(Ok(()))));
}

#[test]
fn failed_crates_are_gathered() {
    let mut a = vec![
        Outcome::Names(words(&["liba", "libb", "libc"])),
        Outcome::Flags(vec![true, true, true]),
        Outcome::Failed(Error::msg("a broke".to_string())),
    ];
    // Without fail-fast the next crate is still built.
    assert_eq!(run_of(perform(generate_docs("/r", false, &mut a))).1, words(&["doc", "src/libb"]));
    a.push(Outcome::Done);
    a.push(Outcome::Failed(Error::msg("c broke".to_string())));
    match generate_docs("/r", false, &mut a) {
        Step::Finish(Err(e)) => {
            assert_eq!(e.display(), "Documentation generation failed with 2 errors");
            match e.kind {
                ErrorKind::DocGeneration(parts) => {
                    assert_eq!(parts.len(), 2);
                    assert_eq!(parts[0].0, "liba");
                    assert_eq!(parts[0].1.display(), "a broke");
                    assert_eq!(parts[1].0, "libc");
                    assert_eq!(parts[1].1.display(), "c broke");
                }
                other => panic!("unexpected {:?}", other),
            }
        }
        other => panic!("unexpected {:?}", other),
    }
}

#[test]
fn fail_fast_stops_at_the_first_failed_crate() {
    let mut a = vec![
        Outcome::Names(words(&["liba", "libb"])),
        Outcome::Flags(vec![true, true]),
        Outcome::Failed(Error::msg("a broke".to_string())),
    ];
    match generate_docs("/r", true, &mut a) {
        Step::Finish(Err(e)) => assert_eq!(e.iter_messages(), vec!["a broke".to_string()]),
        other => panic!("unexpected {:?}", other),
    }
}

#[test]
fn an_unreadable_crates_directory_fails_the_generation() {
    let mut a = vec![Outcome::Failed(Error::io("permission denied".to_string()))];
    match generate_docs("/r", false, &mut a) {
        Step::Finish(Err(e)) => assert_eq!(e.display(), "permission denied"),
        other => panic!("unexpected {:?}", other),
    }
}

#[test]
fn a_missing_checkout_is_cloned() {
    let req = update_rust_repo("/tmp/my rust", false);
    assert_eq!(req.line.program, "git");
    assert_eq!(req.line.args, words(&["clone", "https://github.com/rust-lang/rust", "/tmp/my rust"]));
    assert!(req.dir.is_none());
    assert_eq!(req.line.text(), "git clone https://github.com/rust-lang/rust \"/tmp/my rust\"");
    let req = update_rust_repo("/srv/rust", true);
    assert_eq!(req.line.args, words(&["pull", "origin", "master", "--ff-only"]));
    assert_eq!(req.dir.as_deref(), Some("/srv/rust"));
}

#[test]
fn the_config_edit_turns_docs_on() {
    assert_eq!(edit_rustbuild_config("#compiler-docs = false").unwrap(), "compiler-docs = true");
    assert_eq!(edit_rustbuild_config("#docs = false").unwrap(), "docs = true");
    assert_eq!(edit_rustbuild_config("docs = false").unwrap(), "docs = true");
    assert_eq!(
        edit_rustbuild_config("[build]\n#compiler-docs = false\n#docs = false\n").unwrap(),
        "[build]\ncompiler-docs = true\ndocs = true\n"
    );
    let untouched = "[build]\nextended = true\n";
    assert_eq!(edit_rustbuild_config(untouched).unwrap(), untouched);
}

fn perform(step: Step) -> Action {
    match step {
        Step::Perform(a) => a,
        Step::Finish(r) => panic!("finished early: {:?}", r.map_err(|e| e.iter_messages())),
    }
}

#[test]
fn setup_copies_a_missing_config() {
    let mut answers = Vec::new();
    assert!(matches!(perform(setup_rustbuild_config_file("/r", &mut answers)),
        Action::CheckExists(ref p) if p == "/r/config.toml"));
    answers.push(Outcome::Exists(false));
    assert!(matches!(perform(setup_rustbuild_config_file("/r", &mut answers)),
        Action::CopyFile(ref from, ref to) if from == "/r/src/bootstrap/config.toml.example" && to == "/r/config.toml"));
    answers.push(Outcome::Done);
    assert!(matches!(perform(setup_rustbuild_config_file("/r", &mut answers)),
        Action::ReadFile(ref p) if p == "/r/config.toml"));
    answers.push(Outcome::Text("#compiler-docs = false".to_string()));
    assert!(matches!(perform(setup_rustbuild_config_file("/r", &mut answers)),
        Action::OverwriteFile(ref p, ref c) if p == "/r/config.toml" && c == "compiler-docs = true"));
    answers.push(Outcome::Done);
    assert!(matches!(setup_rustbuild_config_file("/r", &mut answers), Step::Finish(Ok(()))));
}

#[test]
fn setup_reads_an_existing_config() {
    let mut answers = vec![Outcome::Exists(true)];
    assert!(matches!(perform(setup_rustbuild_config_file("/r", &mut answers)),
        Action::ReadFile(ref p) if p == "/r/config.toml"));
}

#[test]
fn setup_explains_its_failures() {
    let mut answers = vec![Outcome::Exists(false), Outcome::Failed(Error::io("denied".to_string()))];
    match setup_rustbuild_config_file("/r", &mut answers) {
        Step::Finish(Err(e)) => assert_eq!(
            e.iter_messages(),
            vec!["Couldn't copy the template config (/r/src/bootstrap/config.toml.example)".to_string(), "denied".to_string()]
        ),
        other => panic!("unexpected {:?}", other),
    }
    let mut answers = vec![
        Outcome::Exists(true),
        Outcome::Text(String::new()),
        Outcome::Failed(Error::io("disk full".to_string())),
    ];
    match setup_rustbuild_config_file("/r", &mut answers) {
        Step::Finish(Err(e)) => assert_eq!(
            e.iter_messages(),
            vec!["Couldn't write to config.toml".to_string(), "disk full".to_string()]
        ),
        other => panic!("unexpected {:?}", other),
    }
    let mut answers = vec![Outcome::Exists(true), Outcome::Failed(Error::msg("unreadable".to_string()))];
    match setup_rustbuild_config_file("/r", &mut answers) {
        Step::Finish(Err(e)) => assert_eq!(e.iter_messages(), vec!["unreadable".to_string()]),
        other => panic!("unexpected {:?}", other),
    }
}

#[test]
fn upload_walks_through_the_pages_update() {
    let mut a = Vec::new();
    assert!(matches!(perform(upload_docs("/r", "git@host:docs.git", &mut a)),
        Action::CheckExists(ref p) if p == "/r/build/x86_64-unknown-linux-gnu/crate-docs"));
    a.push(Outcome::Exists(true));
    assert!(matches!(perform(upload_docs("/r", "git@host:docs.git", &mut a)),
        Action::CreateTempDir(ref p) if p == "rustc-internal-docs"));
    a.push(Outcome::Text("/tmp/t1".to_string()));
    assert_eq!(run_of(perform(upload_docs("/r", "git@host:docs.git", &mut a))),
        ("git".to_string(), words(&["clone", "git@host:docs.git", "/tmp/t1"]), None));
    a.push(Outcome::Done);
    assert_eq!(run_of(perform(upload_docs("/r", "git@host:docs.git", &mut a))),
        ("git".to_string(), words(&["checkout", "gh-pages"]), Some("/tmp/t1".to_string())));
    a.push(Outcome::Done);
    assert_eq!(run_of(perform(upload_docs("/r", "git@host:docs.git", &mut a))),
        ("rsync".to_string(), words(&["-a", "/r/build/x86_64-unknown-linux-gnu/crate-docs/", "/tmp/t1/"]), None));
    a.push(Outcome::Done);
    assert!(matches!(perform(upload_docs("/r", "git@host:docs.git", &mut a)),
        Action::CheckExists(ref p) if p == "/tmp/t1/index.html"));
    a.push(Outcome::Exists(false));
    assert!(matches!(perform(upload_docs("/r", "git@host:docs.git", &mut a)),
        Action::WriteFile(ref p, ref c) if p == "/tmp/t1/index.html"
            && c == r#"<html><meta http-equiv="refresh" content="0; URL=rustc/index.html"></html>"#));
    a.push(Outcome::Done);
    assert_eq!(run_of(perform(upload_docs("/r", "git@host:docs.git", &mut a))),
        ("git".to_string(), words(&["add", "."]), Some("/tmp/t1".to_string())));
    a.push(Outcome::Done);
    assert!(matches!(perform(upload_docs("/r", "git@host:docs.git", &mut a)), Action::ReadClock));
    a.push(Outcome::Text("2024-01-01 10:00:00".to_string()));
    assert_eq!(run_of(perform(upload_docs("/r", "git@host:docs.git", &mut a))),
        ("git".to_string(), words(&["commit", "-m", "updated documentation at 2024-01-01 10:00:00"]), Some("/tmp/t1".to_string())));
    a.push(Outcome::Done);
    assert_eq!(run_of(perform(upload_docs("/r", "git@host:docs.git", &mut a))),
        ("git".to_string(), words(&["push", "origin", "gh-pages"]), Some("/tmp/t1".to_string())));
    a.push(Outcome::Done);
    assert!(matches!(upload_docs("/r", "git@host:docs.git", &mut a), Step::Finish(Ok(()))));
}

#[test]
fn upload_keeps_an_existing_index() {
    let mut a = vec![
        Outcome::Exists(true),
        Outcome::Text("/tmp/t2".to_string()),
        Outcome::Done,
        Outcome::Done,
        Outcome::Done,
        Outcome::Exists(true),
    ];
    assert_eq!(run_of(perform(upload_docs("/r", "repo", &mut a))),
        ("git".to_string(), words(&["add", "."]), Some("/tmp/t2".to_string())));
}

#[test]
fn upload_without_docs_fails_first() {
    let mut a = vec![Outcome::Exists(false)];
    match upload_docs("/r", "repo", &mut a) {
        Step::Finish(Err(e)) => assert_eq!(
            e.iter_messages(),
            vec!["Couldn't find /r/build/x86_64-unknown-linux-gnu/crate-docs ... were any docs even generated?".to_string()]
        ),
        other => panic!("unexpected {:?}", other),
    }
}

#[test]
fn upload_stops_at_a_failed_command() {
    let mut a = vec![
        Outcome::Exists(true),
        Outcome::Text("/tmp/t3".to_string()),
        Outcome::Failed(Error::msg("clone failed".to_string())),
    ];
    match upload_docs("/r", "repo", &mut a) {
        Step::Finish(Err(e)) => assert_eq!(e.iter_messages(), vec!["clone failed".to_string()]),
        other => panic!("unexpected {:?}", other),
    }
}
