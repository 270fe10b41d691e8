//! What a dispatched line asks of the surrounding program. The library
//! decides; the caller performs the one side effect an [`Action`] names
//! and reports diagnostics. A [`DiagKind`] identifies a recoverable error
//! with, where one is relevant, the token it concerns.

use vstd::prelude::*;

verus! {

/// A recoverable diagnostic: it is reported on the error stream and the
/// line's effect is skipped, but the run continues.
#[derive(Debug, Clone, Copy, PartialEq, Eq, Structural)]
pub enum DiagKind {
    /// The line matches no verb and has no assignment shape.
    UnknownCommand,
    /// The line was routed to assignment but holds no `=`.
    InvalidAssignment,
    /// The print command has neither a quoted text nor a single name.
    SaySyntax,
    /// A verb that needs a quoted argument saw no quote at all.
    MissingQuote,
    /// A quoted argument has only one quote character.
    UnterminatedQuote,
    /// The named variable is not bound.
    VarNotFound,
    /// The case-change target does not hold text.
    NotAString,
    /// The case mode is neither `upper` nor `lower`.
    BadCaseMode,
    /// The case-change line does not have exactly its verb, a name and a
    /// mode.
    CaseSyntax,
    /// The file-read line does not have exactly its verb, a path and a
    /// name.
    ReadSyntax,
    /// The file-write line has fewer than its verb, a path and a content
    /// argument.
    WriteSyntax,
}

/// What the caller must do after a line is dispatched.
#[derive(Debug, PartialEq, Eq)]
pub enum Action {
    /// The line was handled inside the store; nothing external remains.
    Done,
    /// Print the bytes on standard output, followed by a line break.
    Say(Vec<u8>),
    /// Print the prompt, read one input line, and hand it back to the
    /// store under the given name.
    Ask { prompt: Vec<u8>, name: Vec<u8> },
    /// Run the bytes as a shell command and wait for it.
    Run(Vec<u8>),
    /// Read the whole file at `path` and bind its text to `name`.
    ReadFile { path: Vec<u8>, name: Vec<u8> },
    /// Write `content` to the file at `path`, replacing what was there.
    WriteFile { path: Vec<u8>, content: Vec<u8> },
    /// Stop the run at once: the terminate command.
    Halt,
    /// Stop the run at once with an error: division or remainder by zero.
    Fatal,
    /// Report a recoverable diagnostic and continue with the next line.
    Report { kind: DiagKind, subject: Vec<u8> },
}

/// The mathematical shape of an [`Action`].
pub enum ActionModel {
    /// Nothing external remains.
    Done,
    /// Print these bytes.
    Say(Seq<u8>),
    /// Prompt and read a line for `name`.
    Ask { prompt: Seq<u8>, name: Seq<u8> },
    /// Run a shell command.
    Run(Seq<u8>),
    /// Read a file into a variable.
    ReadFile { path: Seq<u8>, name: Seq<u8> },
    /// Replace a file's content.
    WriteFile { path: Seq<u8>, content: Seq<u8> },
    /// Stop the run.
    Halt,
    /// Stop the run with the fatal arithmetic error.
    Fatal,
    /// Report a diagnostic and continue.
    Report { kind: DiagKind, subject: Seq<u8> },
}

impl View for Action {
    type V = ActionModel;

    open spec fn view(&self) -> ActionModel {
        match self {
            Action::Done => ActionModel::Done,
            Action::Say(s) => ActionModel::Say(s@),
            Action::Ask { prompt, name } => ActionModel::Ask { prompt: prompt@, name: name@ },
            Action::Run(s) => ActionModel::Run(s@),
            Action::ReadFile { path, name } => ActionModel::ReadFile {
                path: path@,
                name: name@,
            },
            Action::WriteFile { path, content } => ActionModel::WriteFile {
                path: path@,
                content: content@,
            },
            Action::Halt => ActionModel::Halt,
            Action::Fatal => ActionModel::Fatal,
            Action::Report { kind, subject } => ActionModel::Report {
                kind: *kind,
                subject: subject@,
            },
        }
    }
}

} // verus!
