//! Helpers around running commands and reporting failures.

use vstd::prelude::*;

use crate::errors::{is_chained, is_message, Error, ErrorKind, ProcessOutput};
use crate::text::{format_signed, parse_decimal, signed_decimal, signed_decimal_parses_back, tab_run, tabs};

verus! {

/// The words that say how a command ended: nothing when there is no
/// return code, else " with return code " and the code.
pub open spec fn return_code_text(code: Option<i32>) -> Seq<char> {
    match code {
        None => Seq::empty(),
        Some(i) => " with return code "@ + signed_decimal(i as int),
    }
}

/// Print either "" or " with return code 1", depending on whether we got a
/// return code.
pub fn pretty_print_return_code(code: Option<i32>) -> (text: String)
    ensures
        text@ == return_code_text(code),
{
    match code {
        None => String::new(),
        Some(i) => {
            proof { reveal_strlit(" with return code "); }
            let mut text = String::from_str(" with return code ");
            let digits = format_signed(i);
            text.append(digits.as_str());
            text
        },
    }
}

/// The return code written after " with return code " reads back as the
/// code itself.
pub proof fn return_code_text_parses_back(code: i32)
    ensures
        ({
            let text = return_code_text(Some(code));
            let prefix = " with return code "@;
            &&& text.subrange(0, prefix.len() as int) == prefix
            &&& parse_decimal(text.subrange(prefix.len() as int, text.len() as int)) == Some(code as int)
        }),
{
    let text = return_code_text(Some(code));
    let prefix = " with return code "@;
    assert(text.subrange(0, prefix.len() as int) =~= prefix);
    assert(text.subrange(prefix.len() as int, text.len() as int) =~= signed_decimal(code as int));
    signed_decimal_parses_back(code as int);
}

/// The line that reports the error `message` at depth `indent`: the
/// outermost error after `indent` tabs, each cause after one tab more.
pub open spec fn backtrace_line(indent: nat, position: int, message: Seq<char>) -> Seq<char> {
    if position == 0 {
        tab_run(indent) + "Error: "@ + message
    } else {
        tab_run(indent + 1) + "Caused By: "@ + message
    }
}

/// The lines that a backtrace of `e` at depth `indent` prints, one per
/// error of the chain.
pub open spec fn backtrace_lines(e: Error, indent: nat) -> Seq<Seq<char>> {
    Seq::new(
        e.messages().len(),
        |i: int| backtrace_line(indent, i, e.messages()[i]),
    )
}

/// The lines that reporting `e` prints, at the error level: the error
/// itself, then each error that caused it.
pub fn print_backtrace(e: &Error, indent: usize) -> (lines: Vec<String>)
    requires
        indent < usize::MAX,
    ensures
        lines@.map_values(|l: String| l@) == backtrace_lines(*e, indent as nat),
{
    let messages = e.iter_messages();
    let first_indent = tabs(indent);
    let cause_indent = tabs(indent + 1);
    let ghost spec_lines = backtrace_lines(*e, indent as nat);
    let mut lines: Vec<String> = Vec::new();
    let mut i: usize = 0;
    while i < messages.len()
        invariant
            i <= messages@.len(),
            messages@.map_values(|l: String| l@) == e.messages(),
            spec_lines == backtrace_lines(*e, indent as nat),
            first_indent@ == tab_run(indent as nat),
            cause_indent@ == tab_run(indent as nat + 1),
            lines@.len() == i,
            forall|j: int| 0 <= j < i ==> #[trigger] lines@[j]@ == spec_lines[j],
        decreases messages@.len() - i,
    {
        proof {
            reveal_strlit("Error: ");
            reveal_strlit("Caused By: ");
        }
        let mut line;
        if i == 0 {
            line = first_indent.clone();
            line.append("Error: ");
        } else {
            line = cause_indent.clone();
            line.append("Caused By: ");
        }
        line.append(messages[i].as_str());
        assert(messages@.map_values(|l: String| l@)[i as int] == messages@[i as int]@);
        lines.push(line);
        i = i + 1;
    }
    assert(lines@.map_values(|l: String| l@) =~= spec_lines);
    lines
}

/// A command line split into the program and its arguments.
#[derive(Debug)]
pub struct CommandLine {
    pub program: String,
    pub args: Vec<String>,
}

/// A command to run: the program with its arguments, and the directory to
/// run it in, when it is not the current one.
#[derive(Debug)]
pub struct CommandRequest {
    pub line: CommandLine,
    pub dir: Option<String>,
}

/// The texts of a list of words.
pub open spec fn texts(words: Seq<String>) -> Seq<Seq<char>> {
    words.map_values(|s: String| s@)
}

/// The texts of a list of string slices.
pub open spec fn slice_texts(words: Seq<&str>) -> Seq<Seq<char>> {
    words.map_values(|s: &str| s@)
}

/// Whether the character keeps a word from being shown bare: whitespace,
/// a quote or a backslash.
pub open spec fn is_special(c: char) -> bool {
    c == ' ' || c == '\t' || c == '\n' || c == '"' || c == '\'' || c == '\\'
}

/// Whether a word is shown in double quotes: when it is empty or holds a
/// special character.
pub open spec fn needs_quotes(word: Seq<char>) -> bool {
    word.len() == 0 || exists|i: int| 0 <= i < word.len() && is_special(#[trigger] word[i])
}

/// The word with each double quote and backslash preceded by a backslash,
/// as it stands between double quotes.
pub open spec fn escaped(word: Seq<char>) -> Seq<char>
    decreases word.len(),
{
    if word.len() == 0 {
        Seq::empty()
    } else {
        let c = word.last();
        escaped(word.drop_last()) + if c == '"' || c == '\\' { seq!['\\', c] } else { seq![c] }
    }
}

/// How a word of a command line is shown: bare, or in double quotes when
/// it would not read back as one word bare.
pub open spec fn shown_word(word: Seq<char>) -> Seq<char> {
    if needs_quotes(word) {
        seq!['"'] + escaped(word) + seq!['"']
    } else {
        word
    }
}

/// How a command line is shown: the program, then each argument after a
/// space, each word quoted when it needs to be.
pub open spec fn command_text(program: Seq<char>, args: Seq<Seq<char>>) -> Seq<char>
    decreases args.len(),
{
    if args.len() == 0 {
        shown_word(program)
    } else {
        command_text(program, args.drop_last()) + seq![' '] + shown_word(args.last())
    }
}

fn is_special_char(c: char) -> (special: bool)
    ensures
        special == is_special(c),
{
    c == ' ' || c == '\t' || c == '\n' || c == '"' || c == '\'' || c == '\\'
}

/// How the word is shown in a command line.
pub fn show_word(word: &str) -> (shown: String)
    ensures
        shown@ == shown_word(word@),
{
    let len = word.unicode_len();
    let mut quote = len == 0;
    let mut i: usize = 0;
    while i < len
        invariant
            i <= len,
            len == word@.len(),
            quote == (len == 0 || exists|j: int| 0 <= j < i && is_special(#[trigger] word@[j])),
        decreases len - i,
    {
        let c = word.get_char(i);
        if is_special_char(c) {
            quote = true;
        }
        i = i + 1;
    }
    if !quote {
        return String::from_str(word);
    }
    proof {
        reveal_strlit("\"");
    }
    let mut shown = String::from_str("\"");
    let mut i: usize = 0;
    while i < len
        invariant
            i <= len,
            len == word@.len(),
            shown@ == seq!['"'] + escaped(word@.take(i as int)),
        decreases len - i,
    {
        proof {
            reveal_strlit("\\");
        }
        let c = word.get_char(i);
        if c == '"' || c == '\\' {
            shown.append("\\");
        }
        shown.append(word.substring_char(i, i + 1));
        assert(word@.take(i + 1).drop_last() =~= word@.take(i as int));
        assert(word@.subrange(i as int, i + 1) =~= seq![c]);
        i = i + 1;
    }
    proof {
        reveal_strlit("\"");
    }
    shown.append("\"");
    assert(word@.take(len as int) =~= word@);
    shown
}

impl CommandLine {
    /// The command line of `program` with the arguments `args`.
    pub fn new(program: &str, args: &[&str]) -> (line: CommandLine)
        ensures
            line.program@ == program@,
            texts(line.args@) == slice_texts(args@),
    {
        let mut words: Vec<String> = Vec::new();
        let mut i: usize = 0;
        while i < args.len()
            invariant
                i <= args@.len(),
                words@.len() == i,
                forall|j: int| 0 <= j < i ==> #[trigger] words@[j]@ == args@[j]@,
            decreases args@.len() - i,
        {
            words.push(String::from_str(args[i]));
            i = i + 1;
        }
        assert(texts(words@) =~= slice_texts(args@));
        CommandLine { program: String::from_str(program), args: words }
    }

    /// The command line as it is shown in messages.
    pub fn text(&self) -> (shown: String)
        ensures
            shown@ == command_text(self.program@, texts(self.args@)),
    {
        let ghost all = texts(self.args@);
        let mut shown = show_word(self.program.as_str());
        let mut i: usize = 0;
        while i < self.args.len()
            invariant
                i <= self.args@.len(),
                all == texts(self.args@),
                shown@ == command_text(self.program@, all.take(i as int)),
            decreases self.args@.len() - i,
        {
            proof { reveal_strlit(" "); }
            shown.append(" ");
            let word = show_word(self.args[i].as_str());
            shown.append(word.as_str());
            assert(all.take(i + 1).drop_last() =~= all.take(i as int));
            i = i + 1;
        }
        assert(all.take(self.args@.len() as int) =~= all);
        shown
    }
}

/// The words that a POSIX shell makes of `line`, as `shlex::split` finds
/// them; none when the quoting or escaping of `line` is unfinished.
pub uninterp spec fn shell_words(line: Seq<char>) -> Option<Seq<Seq<char>>>;

/// Splits `line` into words with `shlex::split`. The contract claims that
/// the result is `shell_words` of the line, the words taken by their text;
/// what the words are is left to the name.
#[verifier::external_body]
fn split_shell_words(line: &str) -> (words: Option<Vec<String>>)
    ensures
        shell_words(line@) == match words {
            Some(w) => Some(w@.map_values(|s: String| s@)),
            None => None,
        },
{
    shlex::split(line)
}

/// What a command line of the words `words` runs: the program and its
/// arguments, or the message that refuses it.
pub open spec fn command_plan(words: Option<Seq<Seq<char>>>) -> Result<
    (Seq<char>, Seq<Seq<char>>),
    Seq<char>,
> {
    match words {
        None => Err("Invalid command"@),
        Some(w) => if w.len() == 0 {
            Err("Can't execute an empty command"@)
        } else {
            Ok((w[0], w.drop_first()))
        },
    }
}

/// Whether `r` is what the plan `plan` describes.
pub open spec fn follows_plan(
    r: Result<CommandLine, Error>,
    plan: Result<(Seq<char>, Seq<Seq<char>>), Seq<char>>,
) -> bool {
    match (r, plan) {
        (Ok(line), Ok((program, args))) => {
            &&& line.program@ == program
            &&& line.args@.map_values(|s: String| s@) == args
        },
        (Err(e), Err(text)) => is_message(e, text),
        _ => false,
    }
}

/// Turns the words of a command line into the program and its arguments:
/// the first word names the program. No words, or a line that could not be
/// split, is an error.
pub fn command_from_words(words: Option<Vec<String>>) -> (r: Result<CommandLine, Error>)
    ensures
        follows_plan(r, command_plan(match words {
            Some(w) => Some(w@.map_values(|s: String| s@)),
            None => None,
        })),
{
    match words {
        None => {
            proof { reveal_strlit("Invalid command"); }
            Err(Error::msg(String::from_str("Invalid command")))
        },
        Some(w) => {
            if w.len() == 0 {
                proof { reveal_strlit("Can't execute an empty command"); }
                Err(Error::msg(String::from_str("Can't execute an empty command")))
            } else {
                let ghost wv = w@.map_values(|s: String| s@);
                let program = w[0].clone();
                let mut args: Vec<String> = Vec::new();
                let mut i: usize = 1;
                while i < w.len()
                    invariant
                        1 <= i <= w@.len(),
                        wv == w@.map_values(|s: String| s@),
                        args@.len() == i - 1,
                        forall|j: int| 0 <= j < i - 1 ==> #[trigger] args@[j]@ == wv[j + 1],
                    decreases w@.len() - i,
                {
                    args.push(w[i].clone());
                    i = i + 1;
                }
                assert(args@.map_values(|s: String| s@) =~= wv.drop_first());
                Ok(CommandLine { program, args })
            }
        },
    }
}

/// Splits the command line `cmd` the way a POSIX shell does, into the
/// program to run and its arguments.
pub fn parse_command(cmd: &str) -> (r: Result<CommandLine, Error>)
    ensures
        follows_plan(r, command_plan(shell_words(cmd@))),
{
    let words = split_shell_words(cmd);
    command_from_words(words)
}

/// What running `command` comes to, once its program `program` was
/// started or failed to start: a process that cannot be started is
/// reported as not found; one that exits with another code than zero has
/// failed.
pub open spec fn command_result(
    command: Seq<char>,
    program: Seq<char>,
    launched: Result<ProcessOutput, Error>,
    r: Result<ProcessOutput, Error>,
) -> bool {
    match launched {
        Err(io) => r matches Err(e) && is_chained(e, "Command not found, "@ + program, io),
        Ok(output) => if output.succeeded() {
            r == Ok::<ProcessOutput, Error>(output)
        } else {
            &&& r matches Err(e)
            &&& e.cause is None
            &&& e.kind matches ErrorKind::CommandFailed(c, o) && c@ == command && o == output
        },
    }
}

/// A command that exits with code zero gives its output back; one that
/// exits with any other code, or is ended by a signal, fails with
/// `CommandFailed`, holding the command and its output, behind no other
/// message.
pub proof fn nonzero_exit_fails(
    command: Seq<char>,
    program: Seq<char>,
    output: ProcessOutput,
    r: Result<ProcessOutput, Error>,
)
    requires
        command_result(command, program, Ok(output), r),
    ensures
        output.code == Some(0i32) ==> r == Ok::<ProcessOutput, Error>(output),
        output.code != Some(0i32) ==> {
            &&& r matches Err(e)
            &&& r->Err_0.cause is None
            &&& r->Err_0.kind matches ErrorKind::CommandFailed(c, o) && c@ == command && o == output
        },
{
}

/// Decides what a run of `command` gave, from what starting its program
/// `program` gave: the output when the process exited with code zero,
/// else the failure.
pub fn command_outcome(
    command: &str,
    program: &str,
    launched: Result<ProcessOutput, Error>,
) -> (r: Result<ProcessOutput, Error>)
    ensures
        command_result(command@, program@, launched, r),
{
    match launched {
        Err(io) => {
            proof { reveal_strlit("Command not found, "); }
            let mut text = String::from_str("Command not found, ");
            text.append(program);
            Err(io.chain_err(text))
        },
        Ok(output) => {
            if output.success() {
                Ok(output)
            } else {
                Err(Error::from_kind(ErrorKind::CommandFailed(String::from_str(command), output)))
            }
        },
    }
}

/// What copying a directory tree comes to: the failure to start the copy,
/// or else the last of the files that could not be copied, if any.
pub open spec fn copy_result(copied: Result<Vec<Error>, Error>) -> Result<(), Error> {
    match copied {
        Err(e) => Err(e),
        Ok(errors) => if errors@.len() == 0 {
            Ok(())
        } else {
            Err(errors@.last())
        },
    }
}

/// Decides what a recursive copy gave, from the failures it met.
pub fn recursive_copy_outcome(copied: Result<Vec<Error>, Error>) -> (r: Result<(), Error>)
    ensures
        r == copy_result(copied),
{
    match copied {
        Err(e) => Err(e),
        Ok(mut errors) => {
            match errors.pop() {
                None => Ok(()),
                Some(last) => Err(last),
            }
        },
    }
}

/// What reading the file `filename` failed with: the failure to open it,
/// or the failure to read it once opened, put behind a message that says
/// which.
pub open spec fn read_failure(filename: Seq<char>, opened: bool, io: Error, e: Error) -> bool {
    if opened {
        is_chained(e, "Couldn't read from the file"@, io)
    } else {
        is_chained(e, "Couldn't open "@ + filename, io)
    }
}

/// Reports a failure to read the file `filename`.
pub fn read_file_failure(filename: &str, opened: bool, io: Error) -> (e: Error)
    ensures
        read_failure(filename@, opened, io, e),
{
    if opened {
        proof { reveal_strlit("Couldn't read from the file"); }
        io.chain_err(String::from_str("Couldn't read from the file"))
    } else {
        proof { reveal_strlit("Couldn't open "); }
        let mut text = String::from_str("Couldn't open ");
        text.append(filename);
        io.chain_err(text)
    }
}

} // verus!
