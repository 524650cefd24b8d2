//! The documentation run: which stages run, in which order, and what each
//! stage asks of the outside world.

use vstd::prelude::*;

use crate::config::{Config, Stages};
use crate::errors::{Error, ErrorKind};
use crate::helpers::{texts, CommandLine, CommandRequest};
use crate::pattern::{regex_compiles, regex_replace_first, replace_pattern};
use crate::steps::{
    ends_as, exists_answer, explained, fail_behind, fail_with, failure_of, failure_taken,
    first_failure, lemma_first_failure_bound, flags_answer, flags_of, gathered_view, is_failure, lemma_first_failure_at,
    lemma_script_ends, lemma_script_fails, lemma_script_goes_on, names_answer, names_of, opt_text,
    plain, says_exists, script_step, step_is, take_answer, text_answer, text_of, Action,
    ActionSpec, Ending, Outcome, Planned, Step, StepSpec,
};
use crate::text::{path_push, push_path, text_join};

verus! {

/// The stages of a documentation run.
#[derive(Clone, Copy, Debug, PartialEq, Eq, Structural)]
pub enum Stage {
    /// Update the checkout of the rust repository.
    UpdateRepo,
    /// Make sure rustbuild's `config.toml` asks for all the docs.
    SetupConfig,
    /// Build the documentation.
    GenerateDocs,
    /// Upload the documentation to GitHub pages.
    UploadDocs,
}

/// What comes next in a run: a stage to perform, or the end with its
/// result.
#[derive(Debug)]
pub enum RunStep {
    Perform(Stage),
    Finish(Result<(), Error>),
}

/// A step of a run, as its contract describes it.
pub enum RunStepSpec {
    Perform(Stage),
    Finish(Ending),
}

/// Whether `step` is the step `expected`.
pub open spec fn run_step_is(step: RunStep, expected: RunStepSpec) -> bool {
    match (step, expected) {
        (RunStep::Perform(a), RunStepSpec::Perform(b)) => a == b,
        (RunStep::Finish(r), RunStepSpec::Finish(ending)) => ends_as(r, ending),
        _ => false,
    }
}

/// The stages that a run performs when all goes well, in order: the
/// update unless it is skipped, the set-up of rustbuild, the
/// documentation, and the upload unless it is skipped.
pub open spec fn planned_stages(stages: Stages) -> Seq<Stage> {
    let update = if stages.skip_git_update { Seq::empty() } else { seq![Stage::UpdateRepo] };
    let upload = if stages.skip_upload { Seq::empty() } else { seq![Stage::UploadDocs] };
    update + seq![Stage::SetupConfig, Stage::GenerateDocs] + upload
}

/// The message that a failure of `stage` is reported behind, if any.
pub open spec fn stage_context(stage: Stage) -> Option<Seq<char>> {
    match stage {
        Stage::UpdateRepo => Some("Failed to update the rust repo"@),
        Stage::SetupConfig => Some("Couldn't make sure the config.toml is set properly"@),
        Stage::GenerateDocs => None,
        Stage::UploadDocs => Some("Uploading docs failed"@),
    }
}

/// Whether the documentation is still uploaded when building it failed:
/// when the configuration asks for uploads with errors and does not skip
/// the upload.
pub open spec fn uploads_after_failure(cfg: Config) -> bool {
    &&& cfg.error_handling.upload_with_errors
    &&& !cfg.stages.skip_upload
}

/// The step of a run of `cfg` after the stages performed so far gave
/// `results`, in order: `Outcome::Done` for a stage that succeeded,
/// `Outcome::Failed` for one that failed. The run goes through the planned stages and stops
/// at the first failure, which it reports behind the message of its
/// stage; a failed build is followed by the upload when the configuration
/// asks for it, and the run then reports the failed build.
pub open spec fn run_step(cfg: Config, results: Seq<Outcome>) -> RunStepSpec {
    let plan = planned_stages(cfg.stages);
    let limit = if results.len() < plan.len() { results.len() as int } else { plan.len() as int };
    let i = first_failure(results, 0, limit);
    if i < limit {
        let e = failure_of(results[i])->0;
        if plan[i] == Stage::GenerateDocs && uploads_after_failure(cfg) {
            if results.len() == i + 1 {
                RunStepSpec::Perform(Stage::UploadDocs)
            } else {
                RunStepSpec::Finish(Ending::Fail(e))
            }
        } else {
            match stage_context(plan[i]) {
                Some(text) => RunStepSpec::Finish(Ending::FailBehind(text, e)),
                None => RunStepSpec::Finish(Ending::Fail(e)),
            }
        }
    } else if results.len() < plan.len() {
        RunStepSpec::Perform(plan[results.len() as int])
    } else {
        RunStepSpec::Finish(Ending::Succeed)
    }
}

fn plan_stages(stages: Stages) -> (plan: Vec<Stage>)
    ensures
        plan@ == planned_stages(stages),
{
    let mut plan: Vec<Stage> = Vec::new();
    if !stages.skip_git_update {
        plan.push(Stage::UpdateRepo);
    }
    plan.push(Stage::SetupConfig);
    plan.push(Stage::GenerateDocs);
    if !stages.skip_upload {
        plan.push(Stage::UploadDocs);
    }
    assert(plan@ =~= planned_stages(stages));
    plan
}

/// The main entrypoint of the program.
///
/// A run will:
///
/// 1. Update the rust repo to the latest version
/// 2. Tell rustbuild to build the docs by tweaking its `config.toml`
/// 3. Iterate through each crate in `src/` and build its docs with
///    `./x.py doc src/libfoo`
/// 4. Upload the generated documentation to github pages if there were
///    no errors or if `config.error_handling.upload_with_errors` is set.
///
/// The caller performs the stages: given what the stages performed so far
/// gave, in order (`Outcome::Done` or `Outcome::Failed`), this says which
/// stage comes next or how the run ends.
pub fn run(cfg: &Config, results: &mut Vec<Outcome>) -> (step: RunStep)
    ensures
        run_step_is(step, run_step(*cfg, old(results)@)),
        step is Perform ==> final(results)@ == old(results)@,
        failure_taken(old(results)@, final(results)@),
{
    let plan = plan_stages(cfg.stages);
    let n = results.len();
    let limit = if n < plan.len() { n } else { plan.len() };
    let mut i: usize = 0;
    while i < limit && !is_failure(&results[i])
        invariant
            i <= limit,
            limit <= results@.len(),
            limit <= plan@.len(),
            forall|j: int| 0 <= j < i ==> failure_of(results@[j]) is None,
        decreases limit - i,
    {
        i = i + 1;
    }
    proof {
        lemma_first_failure_at(results@, 0, limit as int, i as int);
    }
    if i < limit {
        let stage = plan[i];
        let uploads_anyway = cfg.error_handling.upload_with_errors && !cfg.stages.skip_upload;
        if stage == Stage::GenerateDocs && uploads_anyway && n == i + 1 {
            return RunStep::Perform(Stage::UploadDocs);
        }
        let failed = take_answer(results, i);
        assert(failure_of(old(results)@[i as int]) is Some);
        let e = match failed {
            Outcome::Failed(e) => e,
            _ => {
                return RunStep::Finish(Ok(()));
            },
        };
        if stage == Stage::GenerateDocs {
            RunStep::Finish(Err(e))
        } else if stage == Stage::UpdateRepo {
            proof { reveal_strlit("Failed to update the rust repo"); }
            RunStep::Finish(Err(e.chain_err(String::from_str("Failed to update the rust repo"))))
        } else if stage == Stage::SetupConfig {
            proof { reveal_strlit("Couldn't make sure the config.toml is set properly"); }
            RunStep::Finish(
                Err(
                    e.chain_err(
                        String::from_str("Couldn't make sure the config.toml is set properly"),
                    ),
                ),
            )
        } else {
            proof { reveal_strlit("Uploading docs failed"); }
            RunStep::Finish(Err(e.chain_err(String::from_str("Uploading docs failed"))))
        }
    } else if n < plan.len() {
        RunStep::Perform(plan[n])
    } else {
        RunStep::Finish(Ok(()))
    }
}

/// The stages of a run: the update exactly when it is not skipped, first;
/// then the set-up of rustbuild and the build, in that order; and the
/// upload exactly when it is not skipped, last.
pub proof fn planned_stages_law(stages: Stages)
    ensures
        ({
            let plan = planned_stages(stages);
            let u: int = if stages.skip_git_update { 0 } else { 1 };
            &&& plan.len() == u + 2 + if stages.skip_upload { 0int } else { 1int }
            &&& !stages.skip_git_update ==> plan[0] == Stage::UpdateRepo
            &&& plan[u] == Stage::SetupConfig
            &&& plan[u + 1] == Stage::GenerateDocs
            &&& !stages.skip_upload ==> plan[u + 2] == Stage::UploadDocs
            &&& plan.contains(Stage::UpdateRepo) <==> !stages.skip_git_update
            &&& plan.contains(Stage::UploadDocs) <==> !stages.skip_upload
        }),
{
    let plan = planned_stages(stages);
    let u: int = if stages.skip_git_update { 0 } else { 1 };
    assert(plan[u] == Stage::SetupConfig);
    assert(plan[u + 1] == Stage::GenerateDocs);
    if !stages.skip_git_update {
        assert(plan[0] == Stage::UpdateRepo);
    }
    if !stages.skip_upload {
        assert(plan[u + 2] == Stage::UploadDocs);
    }
}

/// When every stage so far succeeded, a run performs the next planned
/// stage, and succeeds once all of them did.
pub proof fn run_follows_plan(cfg: Config, results: Seq<Outcome>)
    requires
        results.len() <= planned_stages(cfg.stages).len(),
        forall|i: int| 0 <= i < results.len() ==> failure_of(results[i]) is None,
    ensures
        results.len() < planned_stages(cfg.stages).len() ==> run_step(cfg, results)
            == RunStepSpec::Perform(planned_stages(cfg.stages)[results.len() as int]),
        results.len() == planned_stages(cfg.stages).len() ==> run_step(cfg, results)
            == RunStepSpec::Finish(Ending::Succeed),
{
    lemma_first_failure_at(results, 0, results.len() as int, results.len() as int);
}

/// A failed stage ends the run, and the run reports the failure behind the
/// message of its stage; the one exception is a failed build when the
/// configuration asks to upload anyway.
pub proof fn run_stops_at_first_failure(cfg: Config, results: Seq<Outcome>, k: int)
    requires
        0 <= k < results.len(),
        k < planned_stages(cfg.stages).len(),
        forall|i: int| 0 <= i < k ==> failure_of(results[i]) is None,
        failure_of(results[k]) is Some,
        !(planned_stages(cfg.stages)[k] == Stage::GenerateDocs && uploads_after_failure(cfg)),
    ensures
        run_step(cfg, results) == match stage_context(planned_stages(cfg.stages)[k]) {
            Some(text) => RunStepSpec::Finish(Ending::FailBehind(text, failure_of(results[k])->0)),
            None => RunStepSpec::Finish(Ending::Fail(failure_of(results[k])->0)),
        },
{
    let plan = planned_stages(cfg.stages);
    let limit = if results.len() < plan.len() { results.len() as int } else { plan.len() as int };
    lemma_first_failure_at(results, 0, limit, k);
}

/// When the configuration asks to upload even after a failed build, a
/// failed build is followed by the upload, and the run then reports the
/// failed build, whatever the upload gave.
pub proof fn run_uploads_after_failed_build(cfg: Config, results: Seq<Outcome>, k: int)
    requires
        0 <= k < results.len(),
        k < planned_stages(cfg.stages).len(),
        planned_stages(cfg.stages)[k] == Stage::GenerateDocs,
        uploads_after_failure(cfg),
        forall|i: int| 0 <= i < k ==> failure_of(results[i]) is None,
        failure_of(results[k]) is Some,
    ensures
        results.len() == k + 1 ==> run_step(cfg, results) == RunStepSpec::Perform(Stage::UploadDocs),
        results.len() > k + 1 ==> run_step(cfg, results)
            == RunStepSpec::Finish(Ending::Fail(failure_of(results[k])->0)),
{
    let plan = planned_stages(cfg.stages);
    let limit = if results.len() < plan.len() { results.len() as int } else { plan.len() as int };
    lemma_first_failure_at(results, 0, limit, k);
}

/// A failed build is followed by the upload exactly when the
/// configuration asks for uploads with errors and does not skip the
/// upload. Otherwise the run ends with the build's failure, unchanged,
/// whatever `fail_fast` says.
pub proof fn failed_build_is_uploaded_only_when_asked(cfg: Config, results: Seq<Outcome>, k: int)
    requires
        0 <= k < planned_stages(cfg.stages).len(),
        results.len() == k + 1,
        planned_stages(cfg.stages)[k] == Stage::GenerateDocs,
        forall|i: int| 0 <= i < k ==> failure_of(#[trigger] results[i]) is None,
        failure_of(results[k]) is Some,
    ensures
        cfg.error_handling.upload_with_errors && !cfg.stages.skip_upload ==> run_step(cfg, results)
            == RunStepSpec::Perform(Stage::UploadDocs),
        !(cfg.error_handling.upload_with_errors && !cfg.stages.skip_upload) ==> run_step(
            cfg,
            results,
        ) == RunStepSpec::Finish(Ending::Fail(failure_of(results[k])->0)),
{
    lemma_first_failure_at(results, 0, k + 1, k);
}

/// A run never reports success once one of its stages failed.
pub proof fn run_never_hides_a_failure(cfg: Config, results: Seq<Outcome>, k: int)
    requires
        0 <= k < results.len(),
        k < planned_stages(cfg.stages).len(),
        failure_of(results[k]) is Some,
    ensures
        run_step(cfg, results) != RunStepSpec::Finish(Ending::Succeed),
{
    let plan = planned_stages(cfg.stages);
    let limit = if results.len() < plan.len() { results.len() as int } else { plan.len() as int };
    lemma_first_failure_bound(results, 0, limit, k);
}

/// The repository that the rust checkout is cloned from.
pub const RUST_GITHUB_REPO: &'static str = "https://github.com/rust-lang/rust";

/// Whether `request` runs `program` with the arguments `args` in `dir`.
pub open spec fn runs(
    request: CommandRequest,
    program: Seq<char>,
    args: Seq<Seq<char>>,
    dir: Option<Seq<char>>,
) -> bool {
    &&& request.line.program@ == program
    &&& texts(request.line.args@) == args
    &&& opt_text(request.dir) == dir
}

/// The directory of the crates in the checkout `root`.
pub open spec fn crates_dir_of(root: Seq<char>) -> Seq<char> {
    path_push(root, "src"@)
}

/// The manifest that each entry of `names` under the crates directory
/// would hold if it were a crate.
pub open spec fn manifests(root: Seq<char>, names: Seq<Seq<char>>) -> Seq<Seq<char>> {
    Seq::new(
        names.len(),
        |i: int| path_push(path_push(crates_dir_of(root), names[i]), "Cargo.toml"@),
    )
}

/// The entries of `names` whose flag in `flags` is set, in order: the
/// entries that hold a manifest, that is the crates.
pub open spec fn crate_dirs(names: Seq<Seq<char>>, flags: Seq<bool>) -> Seq<Seq<char>>
    decreases names.len(),
{
    if names.len() == 0 {
        Seq::empty()
    } else {
        let rest = crate_dirs(names.drop_last(), flags);
        let last = names.len() - 1;
        if last < flags.len() && flags[last] {
            rest.push(names.last())
        } else {
            rest
        }
    }
}

/// The command that builds the docs of the crate directory `name`, in the
/// checkout `root`.
pub open spec fn doc_command(root: Seq<char>, name: Seq<char>) -> ActionSpec {
    ActionSpec::Run("./x.py"@, seq!["doc"@, "src/"@ + name], Some(root))
}

/// The crates among the first `n` of `crates` whose build failed, by the
/// answers to the builds from position `from` on, each with its error.
pub open spec fn build_failures(crates: Seq<Seq<char>>, answers: Seq<Outcome>, from: int, n: int) -> Seq<
    (Seq<char>, Error),
>
    decreases n,
{
    if n <= 0 {
        Seq::empty()
    } else {
        let rest = build_failures(crates, answers, from, n - 1);
        match failure_of(answers[from + n - 1]) {
            Some(e) => rest.push((crates[n - 1], e)),
            None => rest,
        }
    }
}

/// The step of generating the documentation of every crate in the
/// checkout `root`, after the actions so far were answered with `answers`:
/// list the entries of `src/`, check which of them hold a `Cargo.toml`,
/// and build the docs of each such crate with `./x.py doc src/<crate>`.
/// With `fail_fast`, the first failed build ends the generation with its
/// error; otherwise every crate is built, and the failed ones are gathered
/// into one error.
pub open spec fn generate_step(root: Seq<char>, fail_fast: bool, answers: Seq<Outcome>) -> StepSpec {
    let h = answers;
    if h.len() == 0 {
        StepSpec::Perform(ActionSpec::ListDirectory(crates_dir_of(root)))
    } else if failure_of(h[0]) is Some {
        StepSpec::Finish(Ending::Fail(failure_of(h[0])->0))
    } else if h.len() == 1 {
        StepSpec::Perform(ActionSpec::CheckEach(manifests(root, names_of(h[0]))))
    } else if failure_of(h[1]) is Some {
        StepSpec::Finish(Ending::Fail(failure_of(h[1])->0))
    } else {
        let crates = crate_dirs(names_of(h[0]), flags_of(h[1]));
        let built = h.len() - 2;
        let ran = if built < crates.len() { built } else { crates.len() as int };
        let first = first_failure(h, 2, 2 + ran);
        if fail_fast && first < 2 + ran {
            StepSpec::Finish(Ending::Fail(failure_of(h[first])->0))
        } else if built < crates.len() {
            StepSpec::Perform(doc_command(root, crates[built]))
        } else if build_failures(crates, h, 2, crates.len() as int).len() == 0 {
            StepSpec::Finish(Ending::Succeed)
        } else {
            StepSpec::Finish(Ending::FailGathered(build_failures(crates, h, 2, crates.len() as int)))
        }
    }
}

/// The crates among `names`: those whose flag is set.
fn select_crates(names: &Vec<String>, flags: &Vec<bool>) -> (crates: Vec<String>)
    ensures
        texts(crates@) == crate_dirs(texts(names@), flags@),
{
    let mut crates: Vec<String> = Vec::new();
    let mut i: usize = 0;
    while i < names.len()
        invariant
            i <= names@.len(),
            texts(crates@) == crate_dirs(texts(names@).take(i as int), flags@),
        decreases names@.len() - i,
    {
        let ghost before = texts(names@).take(i as int);
        assert(texts(names@).take(i + 1).drop_last() =~= before);
        if i < flags.len() && flags[i] {
            crates.push(names[i].clone());
            assert(texts(crates@) =~= crate_dirs(before, flags@).push(names@[i as int]@));
        }
        i = i + 1;
    }
    assert(texts(names@).take(names@.len() as int) =~= texts(names@));
    crates
}

/// The manifests of the entries `names` of the crates directory `src_dir`.
fn manifest_paths(src_dir: &str, names: &Vec<String>) -> (paths: Vec<String>)
    ensures
        texts(paths@) == Seq::new(
            names@.len(),
            |i: int| path_push(path_push(src_dir@, names@[i]@), "Cargo.toml"@),
        ),
{
    proof { reveal_strlit("Cargo.toml"); }
    let mut paths: Vec<String> = Vec::new();
    let mut i: usize = 0;
    while i < names.len()
        invariant
            i <= names@.len(),
            paths@.len() == i,
            forall|j: int| 0 <= j < i ==> #[trigger] paths@[j]@ == path_push(
                path_push(src_dir@, names@[j]@),
                "Cargo.toml"@,
            ),
        decreases names@.len() - i,
    {
        proof { reveal_strlit("Cargo.toml"); }
        let dir = push_path(src_dir, names[i].as_str());
        paths.push(push_path(dir.as_str(), "Cargo.toml"));
        i = i + 1;
    }
    assert(texts(paths@) =~= Seq::new(
        names@.len(),
        |i: int| path_push(path_push(src_dir@, names@[i]@), "Cargo.toml"@),
    ));
    paths
}

/// The command that builds the docs of the crate directory `name` in the
/// checkout `root`.
fn doc_request(root: &str, name: &String) -> (request: CommandRequest)
    ensures
        ActionSpec::Run(request.line.program@, texts(request.line.args@), opt_text(request.dir))
            == doc_command(root@, name@),
{
    proof {
        reveal_strlit("./x.py");
        reveal_strlit("doc");
        reveal_strlit("src/");
    }
    let target = text_join("src/", name.as_str());
    let line = CommandLine::new("./x.py", &["doc", target.as_str()]);
    assert(texts(line.args@) =~= seq!["doc"@, "src/"@ + name@]);
    CommandRequest { line, dir: Some(String::from_str(root)) }
}

/// Generate the documentation for every crate in a local checkout of the
/// rust repo, one crate after the other. The caller performs the actions:
/// given the answers so far, in order, this says what comes next.
pub fn generate_docs(root: &str, fail_fast: bool, answers: &mut Vec<Outcome>) -> (step: Step)
    ensures
        step_is(step, generate_step(root@, fail_fast, old(answers)@)),
        step is Perform ==> final(answers)@ == old(answers)@,
        failure_taken(old(answers)@, final(answers)@),
{
    proof { reveal_strlit("src"); }
    let ghost before = answers@;
    let src_dir = push_path(root, "src");
    let n = answers.len();
    if n == 0 {
        return Step::Perform(Action::ListDirectory(src_dir));
    }
    if is_failure(&answers[0]) {
        return fail_with(answers, 0);
    }
    let names = names_answer(&answers[0]);
    if n == 1 {
        let paths = manifest_paths(src_dir.as_str(), &names);
        assert(texts(paths@) =~= manifests(root@, names_of(before[0])));
        return Step::Perform(Action::CheckEach(paths));
    }
    if is_failure(&answers[1]) {
        return fail_with(answers, 1);
    }
    let flags = flags_answer(&answers[1]);
    let crates = select_crates(&names, &flags);
    let ghost crate_names = texts(crates@);
    let m = crates.len();
    let built = n - 2;
    let ran = if built < m { built } else { m };
    if fail_fast {
        let end = 2 + ran;
        let mut i: usize = 2;
        while i < end && !is_failure(&answers[i])
            invariant
                2 <= i <= end,
                end == 2 + ran,
                end <= answers@.len(),
                answers@ == before,
                forall|j: int| 2 <= j < i ==> failure_of(before[j]) is None,
            decreases end - i,
        {
            i = i + 1;
        }
        proof {
            lemma_first_failure_at(before, 2, end as int, i as int);
        }
        if i < end {
            return fail_with(answers, i);
        }
    }
    if built < m {
        return Step::Perform(Action::Run(doc_request(root, &crates[built])));
    }
    let mut parts: Vec<(String, Error)> = Vec::new();
    let mut j: usize = 0;
    while j < m
        invariant
            j <= m,
            m == crates@.len(),
            crate_names == texts(crates@),
            2 + m <= n,
            n == before.len(),
            answers@.len() == before.len(),
            forall|k: int| 2 + j <= k < n ==> #[trigger] answers@[k] == before[k],
            failure_taken(before, answers@),
            gathered_view(parts@) == build_failures(crate_names, before, 2, j as int),
        decreases m - j,
    {
        if is_failure(&answers[2 + j]) {
            let taken = take_answer(answers, 2 + j);
            match taken {
                Outcome::Failed(e) => {
                    parts.push((crates[j].clone(), e));
                },
                _ => {},
            }
            assert(gathered_view(parts@) =~= build_failures(crate_names, before, 2, j + 1));
        } else {
            assert(build_failures(crate_names, before, 2, j + 1) == build_failures(
                crate_names,
                before,
                2,
                j as int,
            ));
        }
        j = j + 1;
    }
    if parts.len() == 0 {
        Step::Finish(Ok(()))
    } else {
        Step::Finish(Err(Error::from_kind(ErrorKind::DocGeneration(parts))))
    }
}

proof fn lemma_no_build_failures(crates: Seq<Seq<char>>, answers: Seq<Outcome>, from: int, n: int)
    requires
        forall|i: int| from <= i < from + n ==> failure_of(#[trigger] answers[i]) is None,
    ensures
        build_failures(crates, answers, from, n).len() == 0,
    decreases n,
{
    if n > 0 {
        lemma_no_build_failures(crates, answers, from, n - 1);
        assert(failure_of(answers[from + n - 1]) is None);
    }
}

/// Every entry of the crates directory that holds a `Cargo.toml` is a
/// crate whose docs are built, and only entries of the directory are.
pub proof fn crates_are_the_entries_with_a_manifest(names: Seq<Seq<char>>, flags: Seq<bool>, i: int)
    requires
        0 <= i < names.len(),
    ensures
        (i < flags.len() && flags[i]) ==> crate_dirs(names, flags).contains(names[i]),
        forall|c: Seq<char>| #[trigger] crate_dirs(names, flags).contains(c) ==> names.contains(c),
    decreases names.len(),
{
    let last = names.len() - 1;
    let rest = crate_dirs(names.drop_last(), flags);
    if i < last {
        crates_are_the_entries_with_a_manifest(names.drop_last(), flags, i);
        assert(names.drop_last()[i] == names[i]);
        if (i < flags.len() && flags[i]) && last < flags.len() && flags[last] {
            let k = choose|k: int| 0 <= k < rest.len() && rest[k] == names[i];
            assert(rest.push(names.last())[k] == names[i]);
        }
    } else if last < flags.len() && flags[last] {
        assert(rest.push(names.last())[rest.len() as int] == names[i]);
    }
    assert forall|c: Seq<char>| #[trigger] crate_dirs(names, flags).contains(c) implies names.contains(c) by {
        if names.len() > 1 {
            crates_are_the_entries_with_a_manifest(names.drop_last(), flags, 0);
        }
        if rest.contains(c) {
            if names.len() > 1 {
                let k = choose|k: int| 0 <= k < names.drop_last().len() && names.drop_last()[k] == c;
                assert(names[k] == c);
            } else {
                assert(rest.len() == 0);
            }
        } else {
            assert(c == names.last());
            assert(names[last] == c);
        }
    }
}

/// Only an entry whose manifest exists is built: each crate is an entry
/// of the directory whose flag is set, and no more crates are built than
/// there are such entries.
pub proof fn only_entries_with_a_manifest_are_built(names: Seq<Seq<char>>, flags: Seq<bool>)
    ensures
        forall|j: int|
            0 <= j < crate_dirs(names, flags).len() ==> exists|i: int|
                0 <= i < names.len() && i < flags.len() && flags[i] && names[i]
                    == #[trigger] crate_dirs(names, flags)[j],
        crate_dirs(names, flags).len() <= names.len(),
    decreases names.len(),
{
    if names.len() > 0 {
        let rest = crate_dirs(names.drop_last(), flags);
        only_entries_with_a_manifest_are_built(names.drop_last(), flags);
        let last = names.len() - 1;
        assert forall|j: int| 0 <= j < crate_dirs(names, flags).len() implies exists|i: int|
            0 <= i < names.len() && i < flags.len() && flags[i] && names[i]
                == #[trigger] crate_dirs(names, flags)[j] by {
            if j < rest.len() {
                let i = choose|i: int|
                    0 <= i < names.drop_last().len() && i < flags.len() && flags[i]
                        && names.drop_last()[i] == #[trigger] rest[j];
                assert(names[i] == names.drop_last()[i]);
                assert(crate_dirs(names, flags)[j] == rest[j]);
            } else {
                assert(last < flags.len() && flags[last]);
                assert(crate_dirs(names, flags)[j] == names[last]);
            }
        }
    }
}

/// The crates built are exactly the entries with a manifest, each once,
/// in the order of the listing: the positions `idx` of the crates in the
/// listing go up strictly, each is an entry whose flag is set, and every
/// entry whose flag is set is among them.
pub proof fn crates_are_the_flagged_entries_in_order(names: Seq<Seq<char>>, flags: Seq<bool>) -> (idx:
    Seq<int>)
    ensures
        idx.len() == crate_dirs(names, flags).len(),
        forall|j: int|
            0 <= j < idx.len() ==> 0 <= #[trigger] idx[j] < names.len() && idx[j] < flags.len()
                && flags[idx[j]] && crate_dirs(names, flags)[j] == names[idx[j]],
        forall|j1: int, j2: int| 0 <= j1 < j2 < idx.len() ==> #[trigger] idx[j1] < #[trigger] idx[j2],
        forall|i: int|
            0 <= i < names.len() && i < flags.len() && #[trigger] flags[i] ==> exists|j: int|
                0 <= j < idx.len() && idx[j] == i,
    decreases names.len(),
{
    if names.len() == 0 {
        Seq::empty()
    } else {
        let last = names.len() - 1;
        let rest = crates_are_the_flagged_entries_in_order(names.drop_last(), flags);
        let result = if last < flags.len() && flags[last] { rest.push(last) } else { rest };
        assert forall|i: int|
            0 <= i < names.len() && i < flags.len() && #[trigger] flags[i] implies exists|j: int|
                0 <= j < result.len() && result[j] == i by {
            if i < last {
                let j = choose|j: int| 0 <= j < rest.len() && rest[j] == i;
                assert(result[j] == i);
            } else {
                assert(result[rest.len() as int] == i);
            }
        }
        assert forall|j: int| 0 <= j < result.len() implies 0 <= #[trigger] result[j] < names.len()
            && result[j] < flags.len() && flags[result[j]] && crate_dirs(names, flags)[j]
            == names[result[j]] by {
            if j < rest.len() {
                assert(names.drop_last()[rest[j]] == names[rest[j]]);
            }
        }
        result
    }
}

/// When every build so far succeeded, the generation builds the next
/// crate, and succeeds once all crates are built.
pub proof fn generation_builds_each_crate(root: Seq<char>, fail_fast: bool, answers: Seq<Outcome>)
    requires
        answers.len() >= 2,
        forall|i: int| 0 <= i < answers.len() ==> failure_of(#[trigger] answers[i]) is None,
        answers.len() - 2 <= crate_dirs(names_of(answers[0]), flags_of(answers[1])).len(),
    ensures
        ({
            let crates = crate_dirs(names_of(answers[0]), flags_of(answers[1]));
            &&& answers.len() - 2 < crates.len() ==> generate_step(root, fail_fast, answers)
                == StepSpec::Perform(doc_command(root, crates[answers.len() - 2]))
            &&& answers.len() - 2 == crates.len() ==> generate_step(root, fail_fast, answers)
                == StepSpec::Finish(Ending::Succeed)
        }),
{
    let crates = crate_dirs(names_of(answers[0]), flags_of(answers[1]));
    assert(failure_of(answers[0]) is None);
    assert(failure_of(answers[1]) is None);
    lemma_first_failure_at(answers, 2, answers.len() as int, answers.len() as int);
    if answers.len() - 2 == crates.len() {
        lemma_no_build_failures(crates, answers, 2, crates.len() as int);
    }
}

/// Without `fail_fast`, a failed build does not stop the generation: the
/// next crate is built all the same.
pub proof fn generation_goes_on_after_a_failed_build(root: Seq<char>, answers: Seq<Outcome>)
    requires
        answers.len() >= 2,
        failure_of(answers[0]) is None,
        failure_of(answers[1]) is None,
        answers.len() - 2 < crate_dirs(names_of(answers[0]), flags_of(answers[1])).len(),
    ensures
        generate_step(root, false, answers) == StepSpec::Perform(
            doc_command(root, crate_dirs(names_of(answers[0]), flags_of(answers[1]))[answers.len() - 2]),
        ),
{
}

/// Without `fail_fast`, once every crate was built, the generation fails
/// exactly when some build failed, with the failed crates and their errors
/// gathered in order.
pub proof fn generation_gathers_failed_builds(root: Seq<char>, answers: Seq<Outcome>)
    requires
        answers.len() >= 2,
        failure_of(answers[0]) is None,
        failure_of(answers[1]) is None,
        answers.len() - 2 == crate_dirs(names_of(answers[0]), flags_of(answers[1])).len(),
    ensures
        ({
            let crates = crate_dirs(names_of(answers[0]), flags_of(answers[1]));
            let failed = build_failures(crates, answers, 2, crates.len() as int);
            generate_step(root, false, answers) == if failed.len() == 0 {
                StepSpec::Finish(Ending::Succeed)
            } else {
                StepSpec::Finish(Ending::FailGathered(failed))
            }
        }),
{
}

/// With `fail_fast`, the first failed build ends the generation with its
/// error.
pub proof fn generation_fails_fast(root: Seq<char>, answers: Seq<Outcome>, k: int)
    requires
        answers.len() >= 2,
        failure_of(answers[0]) is None,
        failure_of(answers[1]) is None,
        2 <= k < answers.len(),
        k < 2 + crate_dirs(names_of(answers[0]), flags_of(answers[1])).len(),
        forall|i: int| 2 <= i < k ==> failure_of(#[trigger] answers[i]) is None,
        failure_of(answers[k]) is Some,
    ensures
        generate_step(root, true, answers) == StepSpec::Finish(Ending::Fail(failure_of(answers[k])->0)),
{
    let crates = crate_dirs(names_of(answers[0]), flags_of(answers[1]));
    let built = answers.len() - 2;
    let ran = if built < crates.len() { built } else { crates.len() as int };
    lemma_first_failure_at(answers, 2, 2 + ran, k);
}

/// Do a `git clone` or `git pull` to make sure the Rust repo is up to date:
/// the command that does so, given whether the checkout `root` exists.
pub fn update_rust_repo(root: &str, root_exists: bool) -> (request: CommandRequest)
    ensures
        !root_exists ==> runs(request, "git"@, seq!["clone"@, RUST_GITHUB_REPO@, root@], None),
        root_exists ==> runs(
            request,
            "git"@,
            seq!["pull"@, "origin"@, "master"@, "--ff-only"@],
            Some(root@),
        ),
{
    proof {
        reveal_strlit("git");
        reveal_strlit("clone");
        reveal_strlit("pull");
        reveal_strlit("origin");
        reveal_strlit("master");
        reveal_strlit("--ff-only");
    }
    if !root_exists {
        let line = CommandLine::new("git", &["clone", RUST_GITHUB_REPO, root]);
        assert(texts(line.args@) =~= seq!["clone"@, RUST_GITHUB_REPO@, root@]);
        CommandRequest { line, dir: None }
    } else {
        let line = CommandLine::new("git", &["pull", "origin", "master", "--ff-only"]);
        assert(texts(line.args@) =~= seq!["pull"@, "origin"@, "master"@, "--ff-only"@]);
        CommandRequest { line, dir: Some(String::from_str(root)) }
    }
}

/// The pattern of the line that turns the compiler's docs on or off.
pub open spec fn compiler_docs_pattern() -> Seq<char> {
    "(?m)^#?compiler-docs .*$"@
}

/// The pattern of the line that turns the docs on or off.
pub open spec fn docs_pattern() -> Seq<char> {
    "(?m)^#?docs .*$"@
}

/// What rustbuild's configuration `contents` becomes once it asks for all
/// the docs: the first line that each pattern matches replaced by the
/// setting that turns it on; nothing when a pattern does not compile.
pub open spec fn rustbuild_edit(contents: Seq<char>) -> Option<Seq<char>> {
    if regex_compiles(compiler_docs_pattern()) && regex_compiles(docs_pattern()) {
        Some(
            regex_replace_first(
                docs_pattern(),
                regex_replace_first(compiler_docs_pattern(), contents, "compiler-docs = true"@),
                "docs = true"@,
            ),
        )
    } else {
        None
    }
}

/// Tells rustbuild to build all the docs: the configuration `contents`
/// with the compiler docs and the docs turned on.
pub fn edit_rustbuild_config(contents: &str) -> (edited: Option<String>)
    ensures
        opt_text(edited) == rustbuild_edit(contents@),
{
    proof {
        reveal_strlit("(?m)^#?compiler-docs .*$");
        reveal_strlit("(?m)^#?docs .*$");
        reveal_strlit("compiler-docs = true");
        reveal_strlit("docs = true");
    }
    let first = replace_pattern("(?m)^#?compiler-docs .*$", contents, "compiler-docs = true");
    match first {
        None => None,
        Some(c) => replace_pattern("(?m)^#?docs .*$", c.as_str(), "docs = true"),
    }
}

/// The edit turns the compiler docs on, then the docs, with the original's
/// patterns made to match at the start of any line: the first line that
/// `(?m)^#?compiler-docs .*$` matches (commented out or not) becomes
/// `compiler-docs = true`, then the first that `(?m)^#?docs .*$` matches
/// becomes `docs = true`; the edit fails only when one of these patterns
/// does not compile.
pub proof fn config_edit_turns_both_settings_on(contents: Seq<char>)
    ensures
        rustbuild_edit(contents) is Some <==> regex_compiles("(?m)^#?compiler-docs .*$"@)
            && regex_compiles("(?m)^#?docs .*$"@),
        rustbuild_edit(contents) is Some ==> rustbuild_edit(contents)->0 == regex_replace_first(
            "(?m)^#?docs .*$"@,
            regex_replace_first("(?m)^#?compiler-docs .*$"@, contents, "compiler-docs = true"@),
            "docs = true"@,
        ),
{
}

/// The message of a set-up that cannot compile its patterns.
pub open spec fn pattern_failure_message() -> Seq<char> {
    "Couldn't compile the patterns that edit config.toml"@
}

/// The step of setting up rustbuild's configuration in the checkout
/// `root`, after the actions so far were answered with `answers`: check
/// whether `config.toml` exists, copy it from the template
/// `src/bootstrap/config.toml.example` when it does not, read it, and write it back with all the docs turned on.
pub open spec fn setup_step(root: Seq<char>, answers: Seq<Outcome>) -> StepSpec {
    let contents = text_of(answers[setup_read_at(answers)]);
    script_step(
        setup_script(root, answers),
        match rustbuild_edit(contents) {
            Some(_) => Ending::Succeed,
            None => Ending::FailMessage(pattern_failure_message()),
        },
        answers,
    )
}

/// Where the answer to reading the configuration stands: after the copy
/// when there was one.
pub open spec fn setup_read_at(answers: Seq<Outcome>) -> int {
    if answers.len() > 0 && says_exists(answers[0]) { 1 } else { 2 }
}

/// The actions of setting up rustbuild's configuration in `root`, as far
/// as the answers decide them: check for `config.toml`, copy the template
/// when it is missing, read the configuration, and write it back edited
/// when the edit can be made.
pub open spec fn setup_script(root: Seq<char>, answers: Seq<Outcome>) -> Seq<Planned> {
    let config = path_push(root, "config.toml"@);
    let template = path_push(root, "src/bootstrap/config.toml.example"@);
    let copy = if answers.len() > 0 && says_exists(answers[0]) {
        Seq::empty()
    } else {
        seq![
            explained(
                ActionSpec::CopyFile(template, config),
                "Couldn't copy the template config ("@ + template + ")"@,
            ),
        ]
    };
    let write = match rustbuild_edit(text_of(answers[setup_read_at(answers)])) {
        Some(edited) => seq![
            explained(ActionSpec::OverwriteFile(config, edited), "Couldn't write to config.toml"@),
        ],
        None => Seq::empty(),
    };
    seq![plain(ActionSpec::CheckExists(config))] + copy + seq![plain(ActionSpec::ReadFile(config))]
        + write
}

/// Copy across the template config file from `src/bootstrap/config.toml.example`
/// if it doesn't already exist, and make sure we tell rustbuild to build
/// *all* docs. The caller performs the actions: given the answers so far,
/// in order, this says what comes next.
pub fn setup_rustbuild_config_file(root: &str, answers: &mut Vec<Outcome>) -> (step: Step)
    ensures
        step_is(step, setup_step(root@, old(answers)@)),
        step is Perform ==> final(answers)@ == old(answers)@,
        failure_taken(old(answers)@, final(answers)@),
{
    proof {
        reveal_strlit("config.toml");
        reveal_strlit("src/bootstrap/config.toml.example");
        reveal_strlit("Couldn't copy the template config (");
        reveal_strlit(")");
        reveal_strlit("Couldn't write to config.toml");
        reveal_strlit("Couldn't compile the patterns that edit config.toml");
    }
    let ghost h = answers@;
    let ghost script = setup_script(root@, h);
    let ghost done = match rustbuild_edit(text_of(h[setup_read_at(h)])) {
        Some(_) => Ending::Succeed,
        None => Ending::FailMessage(pattern_failure_message()),
    };
    let config_file = push_path(root, "config.toml");
    let template = push_path(root, "src/bootstrap/config.toml.example");
    let n = answers.len();
    if n == 0 {
        proof { lemma_script_goes_on(script, done, h); }
        return Step::Perform(Action::CheckExists(config_file));
    }
    if is_failure(&answers[0]) {
        proof { lemma_script_fails(script, done, h, 0); }
        return fail_with(answers, 0);
    }
    let exists = exists_answer(&answers[0]);
    if !exists {
        if n == 1 {
            proof { lemma_script_goes_on(script, done, h); }
            return Step::Perform(Action::CopyFile(template, config_file));
        }
        if is_failure(&answers[1]) {
            proof { lemma_script_fails(script, done, h, 1); }
            let head = text_join("Couldn't copy the template config (", template.as_str());
            let message = text_join(head.as_str(), ")");
            return fail_behind(answers, 1, message);
        }
    }
    let read_at: usize = if exists { 1 } else { 2 };
    if n == read_at {
        proof { lemma_script_goes_on(script, done, h); }
        return Step::Perform(Action::ReadFile(config_file));
    }
    if is_failure(&answers[read_at]) {
        proof { lemma_script_fails(script, done, h, read_at as int); }
        return fail_with(answers, read_at);
    }
    let contents = text_answer(&answers[read_at]);
    match edit_rustbuild_config(contents.as_str()) {
        None => {
            proof { lemma_script_ends(script, done, h); }
            Step::Finish(
                Err(Error::msg(String::from_str("Couldn't compile the patterns that edit config.toml"))),
            )
        },
        Some(edited) => {
            if n == read_at + 1 {
                proof { lemma_script_goes_on(script, done, h); }
                Step::Perform(Action::OverwriteFile(config_file, edited))
            } else if is_failure(&answers[read_at + 1]) {
                proof { lemma_script_fails(script, done, h, read_at + 1); }
                fail_behind(answers, read_at + 1, String::from_str("Couldn't write to config.toml"))
            } else {
                proof { lemma_script_ends(script, done, h); }
                Step::Finish(Ok(()))
            }
        },
    }
}

/// Rustbuild's configuration is copied from the template only when it is
/// missing; when it exists, it is read straight away.
pub proof fn setup_copies_only_when_missing(root: Seq<char>, answer: Outcome)
    requires
        failure_of(answer) is None,
    ensures
        setup_step(root, seq![answer]) == if says_exists(answer) {
            StepSpec::Perform(ActionSpec::ReadFile(path_push(root, "config.toml"@)))
        } else {
            StepSpec::Perform(
                ActionSpec::CopyFile(
                    path_push(root, "src/bootstrap/config.toml.example"@),
                    path_push(root, "config.toml"@),
                ),
            )
        },
{
    let h = seq![answer];
    let done = match rustbuild_edit(text_of(h[setup_read_at(h)])) {
        Some(_) => Ending::Succeed,
        None => Ending::FailMessage(pattern_failure_message()),
    };
    lemma_script_goes_on(setup_script(root, h), done, h);
}

/// What is written back is the configuration that was read, with all the
/// docs turned on.
pub proof fn setup_writes_back_edited_config(root: Seq<char>, answers: Seq<Outcome>, contents: Seq<char>)
    requires
        answers.len() >= 2,
        failure_of(answers[0]) is None,
        says_exists(answers[0]) ==> answers.len() == 2,
        !says_exists(answers[0]) ==> answers.len() == 3 && failure_of(answers[1]) is None,
        failure_of(answers.last()) is None,
        text_of(answers.last()) == contents,
        rustbuild_edit(contents) is Some,
    ensures
        setup_step(root, answers) == StepSpec::Perform(
            ActionSpec::OverwriteFile(path_push(root, "config.toml"@), rustbuild_edit(contents)->0),
        ),
{
    let done = match rustbuild_edit(text_of(answers[setup_read_at(answers)])) {
        Some(_) => Ending::Succeed,
        None => Ending::FailMessage(pattern_failure_message()),
    };
    assert(answers.last() == answers[answers.len() - 1]);
    assert forall|j: int| 0 <= j < answers.len() implies failure_of(#[trigger] answers[j]) is None by {
        if j == answers.len() - 1 {
        }
    }
    lemma_script_goes_on(setup_script(root, answers), done, answers);
}

/// The platform whose documentation is uploaded.
pub open spec fn doc_target() -> Seq<char> {
    "x86_64-unknown-linux-gnu"@
}

/// Where the build leaves the documentation of the crates in the checkout
/// `root`.
pub open spec fn docs_dir_of(root: Seq<char>) -> Seq<char> {
    path_push(path_push(path_push(root, "build"@), doc_target()), "crate-docs"@)
}

/// The page that sends visitors of the site on to the compiler's docs.
pub open spec fn redirect_page() -> Seq<char> {
    "<html><meta http-equiv=\"refresh\" content=\"0; URL=rustc/index.html\"></html>"@
}

/// Whether the first answer says that there are no built docs.
pub open spec fn docs_missing(answers: Seq<Outcome>) -> bool {
    answers.len() > 0 && failure_of(answers[0]) is None && !says_exists(answers[0])
}

/// The actions of uploading the documentation built in the checkout
/// `root` to the GitHub pages of `git_repo`, as far as the answers decide
/// them: check that the docs exist, create a temporary directory, clone
/// the pages into it and check out `gh-pages`, copy the docs over, check
/// for an `index.html` and write a redirecting one when there is none,
/// then add, read the time, commit and push.
pub open spec fn upload_script(root: Seq<char>, git_repo: Seq<char>, answers: Seq<Outcome>) -> Seq<
    Planned,
> {
    let docs = docs_dir_of(root);
    let temp = text_of(answers[1]);
    let index = path_push(temp, "index.html"@);
    let writes_index = !says_exists(answers[5]);
    let time = text_of(answers[if writes_index { 8int } else { 7int }]);
    let write = if writes_index {
        seq![plain(ActionSpec::WriteFile(index, redirect_page()))]
    } else {
        Seq::empty()
    };
    seq![
        plain(ActionSpec::CheckExists(docs)),
        plain(ActionSpec::CreateTempDir("rustc-internal-docs"@)),
        plain(ActionSpec::Run("git"@, seq!["clone"@, git_repo, temp], None)),
        plain(ActionSpec::Run("git"@, seq!["checkout"@, "gh-pages"@], Some(temp))),
        plain(ActionSpec::Run("rsync"@, seq!["-a"@, docs + "/"@, temp + "/"@], None)),
        plain(ActionSpec::CheckExists(index)),
    ] + write + seq![
        plain(ActionSpec::Run("git"@, seq!["add"@, "."@], Some(temp))),
        plain(ActionSpec::ReadClock),
        plain(
            ActionSpec::Run(
                "git"@,
                seq!["commit"@, "-m"@, "updated documentation at "@ + time],
                Some(temp),
            ),
        ),
        plain(ActionSpec::Run("git"@, seq!["push"@, "origin"@, "gh-pages"@], Some(temp))),
    ]
}

/// The step of uploading the documentation built in `root` to the GitHub
/// pages of `git_repo`, after the actions so far were answered with
/// `answers`: the upload script, except that missing docs end it at once.
pub open spec fn upload_step(root: Seq<char>, git_repo: Seq<char>, answers: Seq<Outcome>) -> StepSpec {
    if docs_missing(answers) {
        StepSpec::Finish(
            Ending::FailMessage(
                "Couldn't find "@ + docs_dir_of(root) + " ... were any docs even generated?"@,
            ),
        )
    } else {
        script_step(upload_script(root, git_repo, answers), Ending::Succeed, answers)
    }
}

/// Without built docs, the upload fails before it does anything else.
pub proof fn upload_needs_built_docs(root: Seq<char>, git_repo: Seq<char>, answers: Seq<Outcome>)
    requires
        answers.len() > 0,
        failure_of(answers[0]) is None,
        !says_exists(answers[0]),
    ensures
        upload_step(root, git_repo, answers) == StepSpec::Finish(
            Ending::FailMessage(
                "Couldn't find "@ + docs_dir_of(root) + " ... were any docs even generated?"@,
            ),
        ),
{
}

/// An upload never reports success once one of its planned actions
/// failed (ten of them, eleven when `index.html` is written): it ends with
/// the first failure, unchanged, unless the docs were found missing
/// before it.
pub proof fn upload_never_hides_a_failure(
    root: Seq<char>,
    git_repo: Seq<char>,
    answers: Seq<Outcome>,
    k: int,
)
    requires
        0 <= k < answers.len(),
        k < 10 || (k == 10 && !says_exists(answers[5])),
        failure_of(answers[k]) is Some,
    ensures
        upload_step(root, git_repo, answers) != StepSpec::Finish(Ending::Succeed),
        (forall|i: int| 0 <= i < k ==> failure_of(#[trigger] answers[i]) is None) && (k == 0
            || says_exists(answers[0])) ==> upload_step(root, git_repo, answers)
            == StepSpec::Finish(Ending::Fail(failure_of(answers[k])->0)),
{
    let script = upload_script(root, git_repo, answers);
    let limit = if answers.len() < script.len() { answers.len() as int } else { script.len() as int };
    assert(k < limit);
    lemma_first_failure_bound(answers, 0, limit, k);
    if forall|i: int| 0 <= i < k ==> failure_of(#[trigger] answers[i]) is None {
        lemma_first_failure_at(answers, 0, limit, k);
    }
}

/// Once the docs are copied over, `index.html` is written exactly when
/// the copy holds none, and holds the page that sends visitors on to the
/// compiler's docs.
pub proof fn upload_writes_index_only_when_missing(
    root: Seq<char>,
    git_repo: Seq<char>,
    answers: Seq<Outcome>,
)
    requires
        answers.len() == 6,
        says_exists(answers[0]),
        forall|i: int| 0 <= i < 6 ==> failure_of(#[trigger] answers[i]) is None,
    ensures
        !says_exists(answers[5]) ==> upload_step(root, git_repo, answers) == StepSpec::Perform(
            ActionSpec::WriteFile(path_push(text_of(answers[1]), "index.html"@), redirect_page()),
        ),
        says_exists(answers[5]) ==> upload_step(root, git_repo, answers) == StepSpec::Perform(
            ActionSpec::Run("git"@, seq!["add"@, "."@], Some(text_of(answers[1]))),
        ),
{
    lemma_script_goes_on(upload_script(root, git_repo, answers), Ending::Succeed, answers);
}

/// A request to run `line`, in `dir` when there is one.
fn request_in(line: CommandLine, dir: Option<&String>) -> (request: CommandRequest)
    ensures
        request.line == line,
        opt_text(request.dir) == match dir {
            Some(d) => Some(d@),
            None => None,
        },
{
    match dir {
        Some(d) => CommandRequest { line, dir: Some(d.clone()) },
        None => CommandRequest { line, dir: None },
    }
}

/// Uploads the documentation built in the checkout `root` to the GitHub
/// pages of `git_repo`. The caller performs the actions: given the answers
/// so far, in order, this says what comes next.
pub fn upload_docs(root: &str, git_repo: &str, answers: &mut Vec<Outcome>) -> (step: Step)
    ensures
        step_is(step, upload_step(root@, git_repo@, old(answers)@)),
        step is Perform ==> final(answers)@ == old(answers)@,
        failure_taken(old(answers)@, final(answers)@),
{
    proof {
        reveal_strlit("build");
        reveal_strlit("x86_64-unknown-linux-gnu");
        reveal_strlit("crate-docs");
        reveal_strlit("index.html");
        reveal_strlit("Couldn't find ");
        reveal_strlit(" ... were any docs even generated?");
        reveal_strlit("rustc-internal-docs");
        reveal_strlit("git");
        reveal_strlit("clone");
        reveal_strlit("checkout");
        reveal_strlit("gh-pages");
        reveal_strlit("rsync");
        reveal_strlit("-a");
        reveal_strlit("/");
        reveal_strlit("<html><meta http-equiv=\"refresh\" content=\"0; URL=rustc/index.html\"></html>");
        reveal_strlit("add");
        reveal_strlit(".");
        reveal_strlit("commit");
        reveal_strlit("-m");
        reveal_strlit("updated documentation at ");
        reveal_strlit("push");
        reveal_strlit("origin");
    }
    let ghost h = answers@;
    let ghost script = upload_script(root@, git_repo@, h);
    let target = "x86_64-unknown-linux-gnu";
    let build = push_path(root, "build");
    let by_target = push_path(build.as_str(), target);
    let docs_dir = push_path(by_target.as_str(), "crate-docs");
    let n = answers.len();
    if n == 0 {
        proof { lemma_script_goes_on(script, Ending::Succeed, h); }
        return Step::Perform(Action::CheckExists(docs_dir));
    }
    if is_failure(&answers[0]) {
        proof { lemma_script_fails(script, Ending::Succeed, h, 0); }
        return fail_with(answers, 0);
    }
    if !exists_answer(&answers[0]) {
        let head = text_join("Couldn't find ", docs_dir.as_str());
        let message = text_join(head.as_str(), " ... were any docs even generated?");
        return Step::Finish(Err(Error::msg(message)));
    }
    if n == 1 {
        proof { lemma_script_goes_on(script, Ending::Succeed, h); }
        return Step::Perform(Action::CreateTempDir(String::from_str("rustc-internal-docs")));
    }
    if is_failure(&answers[1]) {
        proof { lemma_script_fails(script, Ending::Succeed, h, 1); }
        return fail_with(answers, 1);
    }
    let temp = text_answer(&answers[1]);
    if n == 2 {
        let line = CommandLine::new("git", &["clone", git_repo, temp.as_str()]);
        assert(texts(line.args@) =~= seq!["clone"@, git_repo@, temp@]);
        proof { lemma_script_goes_on(script, Ending::Succeed, h); }
        return Step::Perform(Action::Run(request_in(line, None)));
    }
    if is_failure(&answers[2]) {
        proof { lemma_script_fails(script, Ending::Succeed, h, 2); }
        return fail_with(answers, 2);
    }
    if n == 3 {
        let line = CommandLine::new("git", &["checkout", "gh-pages"]);
        assert(texts(line.args@) =~= seq!["checkout"@, "gh-pages"@]);
        proof { lemma_script_goes_on(script, Ending::Succeed, h); }
        return Step::Perform(Action::Run(request_in(line, Some(&temp))));
    }
    if is_failure(&answers[3]) {
        proof { lemma_script_fails(script, Ending::Succeed, h, 3); }
        return fail_with(answers, 3);
    }
    if n == 4 {
        let from = text_join(docs_dir.as_str(), "/");
        let to = text_join(temp.as_str(), "/");
        let line = CommandLine::new("rsync", &["-a", from.as_str(), to.as_str()]);
        assert(texts(line.args@) =~= seq!["-a"@, docs_dir@ + "/"@, temp@ + "/"@]);
        proof { lemma_script_goes_on(script, Ending::Succeed, h); }
        return Step::Perform(Action::Run(request_in(line, None)));
    }
    if is_failure(&answers[4]) {
        proof { lemma_script_fails(script, Ending::Succeed, h, 4); }
        return fail_with(answers, 4);
    }
    let index = push_path(temp.as_str(), "index.html");
    if n == 5 {
        proof { lemma_script_goes_on(script, Ending::Succeed, h); }
        return Step::Perform(Action::CheckExists(index));
    }
    if is_failure(&answers[5]) {
        proof { lemma_script_fails(script, Ending::Succeed, h, 5); }
        return fail_with(answers, 5);
    }
    let writes_index = !exists_answer(&answers[5]);
    if writes_index && n == 6 {
        let redirect = "<html><meta http-equiv=\"refresh\" content=\"0; URL=rustc/index.html\"></html>";
        proof { lemma_script_goes_on(script, Ending::Succeed, h); }
        return Step::Perform(Action::WriteFile(index, String::from_str(redirect)));
    }
    if writes_index && is_failure(&answers[6]) {
        proof { lemma_script_fails(script, Ending::Succeed, h, 6); }
        return fail_with(answers, 6);
    }
    let add_at: usize = if writes_index { 7 } else { 6 };
    if n == add_at {
        let line = CommandLine::new("git", &["add", "."]);
        assert(texts(line.args@) =~= seq!["add"@, "."@]);
        proof { lemma_script_goes_on(script, Ending::Succeed, h); }
        return Step::Perform(Action::Run(request_in(line, Some(&temp))));
    }
    if is_failure(&answers[add_at]) {
        proof { lemma_script_fails(script, Ending::Succeed, h, add_at as int); }
        return fail_with(answers, add_at);
    }
    if n == add_at + 1 {
        proof { lemma_script_goes_on(script, Ending::Succeed, h); }
        return Step::Perform(Action::ReadClock);
    }
    if is_failure(&answers[add_at + 1]) {
        proof { lemma_script_fails(script, Ending::Succeed, h, (add_at + 1) as int); }
        return fail_with(answers, add_at + 1);
    }
    if n == add_at + 2 {
        let time = text_answer(&answers[add_at + 1]);
        let message = text_join("updated documentation at ", time.as_str());
        let line = CommandLine::new("git", &["commit", "-m", message.as_str()]);
        assert(texts(line.args@) =~= seq!["commit"@, "-m"@, "updated documentation at "@ + time@]);
        proof { lemma_script_goes_on(script, Ending::Succeed, h); }
        return Step::Perform(Action::Run(request_in(line, Some(&temp))));
    }
    if is_failure(&answers[add_at + 2]) {
        proof { lemma_script_fails(script, Ending::Succeed, h, (add_at + 2) as int); }
        return fail_with(answers, add_at + 2);
    }
    if n == add_at + 3 {
        let line = CommandLine::new("git", &["push", "origin", "gh-pages"]);
        assert(texts(line.args@) =~= seq!["push"@, "origin"@, "gh-pages"@]);
        proof { lemma_script_goes_on(script, Ending::Succeed, h); }
        return Step::Perform(Action::Run(request_in(line, Some(&temp))));
    }
    if is_failure(&answers[add_at + 3]) {
        proof { lemma_script_fails(script, Ending::Succeed, h, (add_at + 3) as int); }
        return fail_with(answers, add_at + 3);
    }
    proof { lemma_script_ends(script, Ending::Succeed, h); }
    Step::Finish(Ok(()))
}

} // verus!
