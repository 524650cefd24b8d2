//! The conversation between the tool and the outside world: the actions
//! that the tool asks for, what the caller answers, and the next step.

use vstd::prelude::*;

use crate::errors::{is_chained, is_message, Error, ErrorKind};
use crate::helpers::{texts, CommandRequest};

verus! {

/// Something that only the outside world can do.
#[derive(Debug)]
pub enum Action {
    /// Tell whether the path exists. Answered by `Outcome::Exists`.
    CheckExists(String),
    /// Tell, for each path, whether it exists. Answered by `Outcome::Flags`,
    /// one flag per path in the same order.
    CheckEach(Vec<String>),
    /// Name the entries of the directory. Answered by `Outcome::Names`, or
    /// `Outcome::Failed` when the directory cannot be read.
    ListDirectory(String),
    /// Run a command. Answered by `Outcome::Done`, or `Outcome::Failed` with what running it
    /// failed with.
    Run(CommandRequest),
    /// Copy the file at the first path to the second. Answered by
    /// `Outcome::Done`, or `Outcome::Failed` with the input/output failure.
    CopyFile(String, String),
    /// Read the whole file at the path. Answered by `Outcome::Text`, or
    /// `Outcome::Failed` with the failure that reading the file reports.
    ReadFile(String),
    /// Create the file at the path and write the text into it. Answered by
    /// `Outcome::Done`, or `Outcome::Failed` with the input/output failure.
    WriteFile(String, String),
    /// Write the text over the file at the path, which is known to exist:
    /// a file that cannot be created stops the tool. Answered by
    /// `Outcome::Done`, or `Outcome::Failed` with the failure to write.
    OverwriteFile(String, String),
    /// Create a fresh temporary directory whose name starts with the text.
    /// Answered by `Outcome::Text` with its path, or `Outcome::Failed`.
    CreateTempDir(String),
    /// Read the local date and time. Answered by `Outcome::Text` with it
    /// written out.
    ReadClock,
}

/// What the outside world answered to an action.
#[derive(Debug)]
pub enum Outcome {
    /// Whether the path exists.
    Exists(bool),
    /// The action was done.
    Done,
    /// The text that the action gave.
    Text(String),
    /// The names that the action gave.
    Names(Vec<String>),
    /// The flags that the action gave.
    Flags(Vec<bool>),
    /// The action failed with this error.
    Failed(Error),
}

/// What comes next: an action to perform, or the end with its result.
#[derive(Debug)]
pub enum Step {
    Perform(Action),
    Finish(Result<(), Error>),
}

/// An action, with its texts taken by their characters.
pub enum ActionSpec {
    CheckExists(Seq<char>),
    CheckEach(Seq<Seq<char>>),
    ListDirectory(Seq<char>),
    /// The program, its arguments and the directory to run it in.
    Run(Seq<char>, Seq<Seq<char>>, Option<Seq<char>>),
    CopyFile(Seq<char>, Seq<char>),
    ReadFile(Seq<char>),
    WriteFile(Seq<char>, Seq<char>),
    OverwriteFile(Seq<char>, Seq<char>),
    CreateTempDir(Seq<char>),
    ReadClock,
}

/// The text of an optional string.
pub open spec fn opt_text(s: Option<String>) -> Option<Seq<char>> {
    match s {
        Some(t) => Some(t@),
        None => None,
    }
}

impl View for Action {
    type V = ActionSpec;

    open spec fn view(&self) -> ActionSpec {
        match self {
            Action::CheckExists(p) => ActionSpec::CheckExists(p@),
            Action::CheckEach(paths) => ActionSpec::CheckEach(texts(paths@)),
            Action::ListDirectory(p) => ActionSpec::ListDirectory(p@),
            Action::Run(req) => ActionSpec::Run(
                req.line.program@,
                texts(req.line.args@),
                opt_text(req.dir),
            ),
            Action::CopyFile(from, to) => ActionSpec::CopyFile(from@, to@),
            Action::ReadFile(p) => ActionSpec::ReadFile(p@),
            Action::WriteFile(p, c) => ActionSpec::WriteFile(p@, c@),
            Action::OverwriteFile(p, c) => ActionSpec::OverwriteFile(p@, c@),
            Action::CreateTempDir(prefix) => ActionSpec::CreateTempDir(prefix@),
            Action::ReadClock => ActionSpec::ReadClock,
        }
    }
}

/// How a procedure ends.
pub enum Ending {
    /// It succeeded.
    Succeed,
    /// It failed with this error, unchanged.
    Fail(Error),
    /// It failed with a message put in front of this error.
    FailBehind(Seq<char>, Error),
    /// It failed with this message alone.
    FailMessage(Seq<char>),
    /// It failed in some parts: the name of each part that failed, with
    /// its error, gathered into one error.
    FailGathered(Seq<(Seq<char>, Error)>),
}

/// The failures of the parts, each by the text of its name.
pub open spec fn gathered_view(parts: Seq<(String, Error)>) -> Seq<(Seq<char>, Error)> {
    parts.map_values(|p: (String, Error)| (p.0@, p.1))
}

/// Whether the result `r` is the ending `ending`.
pub open spec fn ends_as(r: Result<(), Error>, ending: Ending) -> bool {
    match ending {
        Ending::Succeed => r is Ok,
        Ending::Fail(e) => r == Err::<(), Error>(e),
        Ending::FailBehind(text, cause) => r matches Err(e) && is_chained(e, text, cause),
        Ending::FailMessage(text) => r matches Err(e) && is_message(e, text),
        Ending::FailGathered(parts) => {
            &&& r matches Err(e)
            &&& r->Err_0.cause is None
            &&& r->Err_0.kind matches ErrorKind::DocGeneration(v) && gathered_view(v@) == parts
        },
    }
}

/// A step, with its action taken by its texts.
pub enum StepSpec {
    Perform(ActionSpec),
    Finish(Ending),
}

/// Whether `step` is the step `expected`.
pub open spec fn step_is(step: Step, expected: StepSpec) -> bool {
    match (step, expected) {
        (Step::Perform(a), StepSpec::Perform(b)) => a@ == b,
        (Step::Finish(r), StepSpec::Finish(ending)) => ends_as(r, ending),
        _ => false,
    }
}

/// The failure that an answer reports, if any.
pub open spec fn failure_of(o: Outcome) -> Option<Error> {
    match o {
        Outcome::Failed(e) => Some(e),
        _ => None,
    }
}

/// Whether the answer says that a path exists.
pub open spec fn says_exists(o: Outcome) -> bool {
    o matches Outcome::Exists(true)
}

/// The text that an answer gives; empty when it gives none.
pub open spec fn text_of(o: Outcome) -> Seq<char> {
    match o {
        Outcome::Text(s) => s@,
        _ => Seq::empty(),
    }
}

/// The names that an answer gives; none when it gives none.
pub open spec fn names_of(o: Outcome) -> Seq<Seq<char>> {
    match o {
        Outcome::Names(names) => texts(names@),
        _ => Seq::empty(),
    }
}

/// The flags that an answer gives; none when it gives none.
pub open spec fn flags_of(o: Outcome) -> Seq<bool> {
    match o {
        Outcome::Flags(flags) => flags@,
        _ => Seq::empty(),
    }
}

/// The names that the answer gives.
pub fn names_answer(o: &Outcome) -> (names: Vec<String>)
    ensures
        texts(names@) == names_of(*o),
{
    let mut names: Vec<String> = Vec::new();
    match o {
        Outcome::Names(given) => {
            let mut i: usize = 0;
            while i < given.len()
                invariant
                    i <= given@.len(),
                    names@.len() == i,
                    forall|j: int| 0 <= j < i ==> #[trigger] names@[j]@ == given@[j]@,
                decreases given@.len() - i,
            {
                names.push(given[i].clone());
                i = i + 1;
            }
            assert(texts(names@) =~= texts(given@));
        },
        _ => {
            assert(texts(names@) =~= Seq::<Seq<char>>::empty());
        },
    }
    names
}

/// The flags that the answer gives.
pub fn flags_answer(o: &Outcome) -> (flags: Vec<bool>)
    ensures
        flags@ == flags_of(*o),
{
    let mut flags: Vec<bool> = Vec::new();
    match o {
        Outcome::Flags(given) => {
            let mut i: usize = 0;
            while i < given.len()
                invariant
                    i <= given@.len(),
                    flags@ == given@.take(i as int),
                decreases given@.len() - i,
            {
                flags.push(given[i]);
                i = i + 1;
            }
            assert(given@.take(given@.len() as int) =~= given@);
        },
        _ => {
            assert(flags@ =~= Seq::<bool>::empty());
        },
    }
    flags
}

/// The position of the first failure among `results[from..to]`, or `to`
/// when there is none.
pub open spec fn first_failure(results: Seq<Outcome>, from: int, to: int) -> int
    decreases to - from,
{
    if from >= to {
        to
    } else if failure_of(results[from]) is Some {
        from
    } else {
        first_failure(results, from + 1, to)
    }
}

/// The first failure among answers with none before `i` and one at `i`
/// (or none up to `to`) is at `i`.
pub proof fn lemma_first_failure_at(results: Seq<Outcome>, from: int, to: int, i: int)
    requires
        from <= i <= to,
        forall|j: int| from <= j < i ==> failure_of(results[j]) is None,
        i == to || failure_of(results[i]) is Some,
    ensures
        first_failure(results, from, to) == i,
    decreases i - from,
{
    if from < i {
        lemma_first_failure_at(results, from + 1, to, i);
    }
}

/// The first failure comes no later than any failure.
pub proof fn lemma_first_failure_bound(results: Seq<Outcome>, from: int, to: int, k: int)
    requires
        from <= k < to,
        failure_of(results[k]) is Some,
    ensures
        from <= first_failure(results, from, to) <= k,
    decreases k - from,
{
    if from < k && failure_of(results[from]) is None {
        lemma_first_failure_bound(results, from + 1, to, k);
    }
}

/// An action that a procedure plans, with the message that its failure
/// is reported behind, if any.
pub struct Planned {
    pub action: ActionSpec,
    pub context: Option<Seq<char>>,
}

/// An action whose failure is reported as it is.
pub open spec fn plain(action: ActionSpec) -> Planned {
    Planned { action, context: None }
}

/// An action whose failure is reported behind `message`.
pub open spec fn explained(action: ActionSpec, message: Seq<char>) -> Planned {
    Planned { action, context: Some(message) }
}

/// The step of a procedure that plans the actions `script` and ends as
/// `done` once all of them succeeded: the first failure among the answers,
/// reported behind the message of its action if it has one; else the next
/// unanswered action; else `done`.
pub open spec fn script_step(script: Seq<Planned>, done: Ending, answers: Seq<Outcome>) -> StepSpec {
    let limit = if answers.len() < script.len() { answers.len() as int } else { script.len() as int };
    let i = first_failure(answers, 0, limit);
    if i < limit {
        match script[i].context {
            Some(text) => StepSpec::Finish(Ending::FailBehind(text, failure_of(answers[i])->0)),
            None => StepSpec::Finish(Ending::Fail(failure_of(answers[i])->0)),
        }
    } else if answers.len() < script.len() {
        StepSpec::Perform(script[answers.len() as int].action)
    } else {
        StepSpec::Finish(done)
    }
}

/// The first failure of a script's answers ends it, reported behind the
/// message of its action if it has one.
pub proof fn lemma_script_fails(script: Seq<Planned>, done: Ending, answers: Seq<Outcome>, p: int)
    requires
        0 <= p < script.len(),
        p < answers.len(),
        forall|j: int| 0 <= j < p ==> failure_of(#[trigger] answers[j]) is None,
        failure_of(answers[p]) is Some,
    ensures
        script_step(script, done, answers) == match script[p].context {
            Some(text) => StepSpec::Finish(Ending::FailBehind(text, failure_of(answers[p])->0)),
            None => StepSpec::Finish(Ending::Fail(failure_of(answers[p])->0)),
        },
{
    let limit = if answers.len() < script.len() { answers.len() as int } else { script.len() as int };
    lemma_first_failure_at(answers, 0, limit, p);
}

/// While every answer of a script succeeded, its next action comes next.
pub proof fn lemma_script_goes_on(script: Seq<Planned>, done: Ending, answers: Seq<Outcome>)
    requires
        answers.len() < script.len(),
        forall|j: int| 0 <= j < answers.len() ==> failure_of(#[trigger] answers[j]) is None,
    ensures
        script_step(script, done, answers) == StepSpec::Perform(script[answers.len() as int].action),
{
    lemma_first_failure_at(answers, 0, answers.len() as int, answers.len() as int);
}

/// Once every action of a script succeeded, it ends as planned.
pub proof fn lemma_script_ends(script: Seq<Planned>, done: Ending, answers: Seq<Outcome>)
    requires
        answers.len() >= script.len(),
        forall|j: int| 0 <= j < script.len() ==> failure_of(#[trigger] answers[j]) is None,
    ensures
        script_step(script, done, answers) == StepSpec::Finish(done),
{
    lemma_first_failure_at(answers, 0, script.len() as int, script.len() as int);
}

/// Whether the answer reports a failure.
pub fn is_failure(o: &Outcome) -> (failed: bool)
    ensures
        failed == failure_of(*o) is Some,
{
    match o {
        Outcome::Failed(_) => true,
        _ => false,
    }
}

/// Whether the answer says that a path exists.
pub fn exists_answer(o: &Outcome) -> (exists: bool)
    ensures
        exists == says_exists(*o),
{
    match o {
        Outcome::Exists(b) => *b,
        _ => false,
    }
}

/// The text that the answer gives.
pub fn text_answer(o: &Outcome) -> (text: String)
    ensures
        text@ == text_of(*o),
{
    match o {
        Outcome::Text(s) => s.clone(),
        _ => String::new(),
    }
}

/// Whether `after` is `before` with some of its failures taken out and
/// left as `Outcome::Done`.
pub open spec fn failure_taken(before: Seq<Outcome>, after: Seq<Outcome>) -> bool {
    &&& after.len() == before.len()
    &&& forall|i: int|
        0 <= i < before.len() ==> #[trigger] after[i] == before[i] || (failure_of(before[i]) is Some
            && after[i] == Outcome::Done)
}

/// Takes the answer at `at` out of `answers`, leaving `Outcome::Done` in
/// its place.
pub(crate) fn take_answer(answers: &mut Vec<Outcome>, at: usize) -> (taken: Outcome)
    requires
        at < old(answers)@.len(),
    ensures
        taken == old(answers)@[at as int],
        final(answers)@ == old(answers)@.update(at as int, Outcome::Done),
{
    let taken = answers.remove(at);
    answers.insert(at, Outcome::Done);
    assert(answers@ =~= old(answers)@.update(at as int, Outcome::Done));
    taken
}

/// Ends with the failure that the answer at `at` reports, taken out of
/// `answers`.
pub fn fail_with(answers: &mut Vec<Outcome>, at: usize) -> (step: Step)
    requires
        at < old(answers)@.len(),
        failure_of(old(answers)@[at as int]) is Some,
    ensures
        step_is(step, StepSpec::Finish(Ending::Fail(failure_of(old(answers)@[at as int])->0))),
        failure_taken(old(answers)@, final(answers)@),
{
    let taken = take_answer(answers, at);
    assert(failure_of(old(answers)@[at as int]) is Some);
    match taken {
        Outcome::Failed(e) => Step::Finish(Err(e)),
        _ => Step::Finish(Ok(())),
    }
}

/// Ends with `message` put in front of the failure that the answer at
/// `at` reports, taken out of `answers`.
pub fn fail_behind(answers: &mut Vec<Outcome>, at: usize, message: String) -> (step: Step)
    requires
        at < old(answers)@.len(),
        failure_of(old(answers)@[at as int]) is Some,
    ensures
        step_is(
            step,
            StepSpec::Finish(Ending::FailBehind(message@, failure_of(old(answers)@[at as int])->0)),
        ),
        failure_taken(old(answers)@, final(answers)@),
{
    let taken = take_answer(answers, at);
    match taken {
        Outcome::Failed(e) => Step::Finish(Err(e.chain_err(message))),
        _ => Step::Finish(Ok(())),
    }
}

} // verus!
