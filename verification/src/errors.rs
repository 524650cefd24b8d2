//! The errors of the tool: what went wrong, and the chain of causes
//! behind it.

use vstd::prelude::*;

use crate::helpers::{pretty_print_return_code, return_code_text};
use crate::text::{decimal, format_unsigned};

verus! {

/// What a finished process left behind: its exit code (none when a
/// signal ended it) and what it wrote.
#[derive(Debug)]
pub struct ProcessOutput {
    pub code: Option<i32>,
    pub stdout: Vec<u8>,
    pub stderr: Vec<u8>,
}

impl ProcessOutput {
    /// A process succeeded when it exited with code zero.
    pub open spec fn succeeded(&self) -> bool {
        self.code == Some(0i32)
    }

    /// Whether the process exited with code zero.
    pub fn success(&self) -> (ok: bool)
        ensures
            ok == self.succeeded(),
    {
        match self.code {
            Some(c) => c == 0,
            None => false,
        }
    }
}

/// A process succeeded exactly when it exited with code zero: any other
/// code, or an end by a signal (no code), is no success.
pub proof fn success_is_exit_code_zero(output: ProcessOutput)
    ensures
        output.succeeded() <==> output.code == Some(0i32),
        output.code is None ==> !output.succeeded(),
        forall|c: i32| output.code == Some(c) && c != 0 ==> !output.succeeded(),
{
}

/// The kinds of error.
#[derive(Debug)]
pub enum ErrorKind {
    /// A plain message.
    Msg(String),
    /// An input/output failure, by the message of the operating system.
    Io(String),
    /// A command that ran and failed: the command line and what it left.
    CommandFailed(String, ProcessOutput),
    /// Documentation that failed to build, with the error of each part.
    DocGeneration(Vec<(String, Error)>),
}

/// An error, with the error that caused it, if any.
#[derive(Debug)]
pub struct Error {
    pub kind: ErrorKind,
    pub cause: Option<Box<Error>>,
}

/// The line that describes an error of the kind `kind`.
pub open spec fn kind_text(kind: ErrorKind) -> Seq<char> {
    match kind {
        ErrorKind::Msg(m) => m@,
        ErrorKind::Io(m) => m@,
        ErrorKind::CommandFailed(cmd, output) =>
            "Command failed"@ + return_code_text(output.code) + ", \""@ + cmd@ + "\""@,
        ErrorKind::DocGeneration(errors) =>
            "Documentation generation failed with "@ + decimal(errors@.len()) + " errors"@,
    }
}

/// Whether `e` is a plain message that says `text`, with no cause.
pub open spec fn is_message(e: Error, text: Seq<char>) -> bool {
    &&& e.kind matches ErrorKind::Msg(m) && m@ == text
    &&& e.cause is None
}

/// Whether `e` says `text` and was caused by `cause`.
pub open spec fn is_chained(e: Error, text: Seq<char>, cause: Error) -> bool {
    &&& e.kind matches ErrorKind::Msg(m) && m@ == text
    &&& e.cause == Some(Box::new(cause))
}

/// Chaining keeps the whole story: the messages of an error put behind
/// `text` are `text` followed by the messages of the error it was put
/// behind.
pub proof fn chained_messages(e: Error, text: Seq<char>, cause: Error)
    requires
        is_chained(e, text, cause),
    ensures
        e.messages() == seq![text] + cause.messages(),
        e.messages().len() == cause.messages().len() + 1,
{
    assert(e.kinds() == seq![e.kind].add(cause.kinds()));
    assert(e.messages() =~= seq![text] + cause.messages());
}

impl Error {
    /// The kinds along the chain: this error first, then its cause, and
    /// so on.
    pub open spec fn kinds(self) -> Seq<ErrorKind>
        decreases self,
    {
        match self.cause {
            Some(c) => seq![self.kind].add(c.kinds()),
            None => seq![self.kind],
        }
    }

    /// The lines that describe the chain, one per error, outermost first.
    pub open spec fn messages(self) -> Seq<Seq<char>> {
        self.kinds().map_values(|k: ErrorKind| kind_text(k))
    }

    /// An error of the given kind, with no cause.
    pub fn from_kind(kind: ErrorKind) -> (e: Error)
        ensures
            e.kind == kind,
            e.cause is None,
    {
        Error { kind, cause: None }
    }

    /// An error that says `message`.
    pub fn msg(message: String) -> (e: Error)
        ensures
            e.kind == ErrorKind::Msg(message),
            e.cause is None,
    {
        Error::from_kind(ErrorKind::Msg(message))
    }

    /// An input/output failure that the operating system described as
    /// `message`.
    pub fn io(message: String) -> (e: Error)
        ensures
            e.kind == ErrorKind::Io(message),
            e.cause is None,
    {
        Error::from_kind(ErrorKind::Io(message))
    }

    /// Puts this error behind a new one that says `message`.
    pub fn chain_err(self, message: String) -> (e: Error)
        ensures
            e.kind == ErrorKind::Msg(message),
            e.cause == Some(Box::new(self)),
    {
        Error { kind: ErrorKind::Msg(message), cause: Some(Box::new(self)) }
    }

    /// The line that describes this error alone.
    pub fn display(&self) -> (line: String)
        ensures
            line@ == kind_text(self.kind),
    {
        match &self.kind {
            ErrorKind::Msg(m) => m.clone(),
            ErrorKind::Io(m) => m.clone(),
            ErrorKind::CommandFailed(cmd, output) => {
                proof {
                    reveal_strlit("Command failed");
                    reveal_strlit(", \"");
                    reveal_strlit("\"");
                }
                let mut line = String::from_str("Command failed");
                let code = pretty_print_return_code(output.code);
                line.append(code.as_str());
                line.append(", \"");
                line.append(cmd.as_str());
                line.append("\"");
                line
            },
            ErrorKind::DocGeneration(errors) => {
                proof {
                    reveal_strlit("Documentation generation failed with ");
                    reveal_strlit(" errors");
                }
                let mut line = String::from_str("Documentation generation failed with ");
                let count = format_unsigned(errors.len() as u64);
                line.append(count.as_str());
                line.append(" errors");
                line
            },
        }
    }

    /// The lines that describe the whole chain, outermost first.
    pub fn iter_messages(&self) -> (lines: Vec<String>)
        ensures
            lines@.map_values(|l: String| l@) == self.messages(),
        decreases self,
    {
        let mut lines: Vec<String> = Vec::new();
        lines.push(self.display());
        match &self.cause {
            Some(c) => {
                let rest = c.iter_messages();
                let mut i: usize = 0;
                while i < rest.len()
                    invariant
                        i <= rest@.len(),
                        lines@.len() == 1 + i,
                        lines@[0]@ == kind_text(self.kind),
                        forall|j: int| 0 <= j < i ==> #[trigger] lines@[1 + j]@ == rest@[j]@,
                    decreases rest@.len() - i,
                {
                    lines.push(rest[i].clone());
                    i = i + 1;
                }
                let ghost inner = c.messages();
                assert(self.kinds() == seq![self.kind].add(c.kinds()));
                assert forall|j: int| 0 <= j < rest@.len() implies #[trigger] inner[j] == rest@[j]@ by {
                    assert(rest@.map_values(|l: String| l@)[j] == rest@[j]@);
                }
                assert(inner.len() == rest@.len());
                assert(self.messages().len() == lines@.len());
                assert forall|k: int| 0 <= k < lines@.len() implies
                    #[trigger] self.messages()[k] == lines@.map_values(|l: String| l@)[k] by {
                    if k > 0 {
                        assert(self.kinds()[k] == c.kinds()[k - 1]);
                        assert(lines@[1 + (k - 1)]@ == rest@[k - 1]@);
                        assert(inner[k - 1] == rest@[k - 1]@);
                        assert(inner[k - 1] == kind_text(c.kinds()[k - 1]));
                    } else {
                        assert(self.kinds()[0] == self.kind);
                    }
                }
                assert(lines@.map_values(|l: String| l@) =~= self.messages());
            },
            None => {
                assert(lines@.map_values(|l: String| l@) =~= self.messages());
            },
        }
        lines
    }
}

} // verus!
