use vstd::prelude::*;

use super::position::Position;

verus! {

/// The result of an engine operation.
pub type EngineResult<T> = core::result::Result<T, AiScriptBasicError>;

/// What an error of the engine reports.
pub trait AiScriptError {
    /// The name of the kind of error.
    fn name(&self) -> &'static str;

    /// The message of the error.
    fn message(&self) -> &str;

    /// Where in the source the error was found, if anywhere.
    fn pos(&self) -> Option<Position>;
}

/// The kinds of errors.
#[derive(Clone, Copy, Debug, PartialEq, Eq, Structural)]
pub enum AiScriptBasicErrorKind {
    /// Parse-time errors.
    Syntax,
    /// Namespace collection errors.
    Namespace,
    /// Errors found while running a program.
    Runtime,
}

impl AiScriptBasicErrorKind {
    pub open spec fn name_spec(self) -> Seq<char> {
        match self {
            AiScriptBasicErrorKind::Syntax => "Syntax"@,
            AiScriptBasicErrorKind::Namespace => "Namespace"@,
            AiScriptBasicErrorKind::Runtime => "Runtime"@,
        }
    }

    /// The name of the kind.
    pub fn name(&self) -> (r: &'static str)
        ensures
            r@ == self.name_spec(),
    {
        match self {
            AiScriptBasicErrorKind::Syntax => "Syntax",
            AiScriptBasicErrorKind::Namespace => "Namespace",
            AiScriptBasicErrorKind::Runtime => "Runtime",
        }
    }
}

/// An error of a given kind with a message and, possibly, a position.
#[derive(Clone, Debug, PartialEq, Eq)]
pub struct AiScriptBasicError {
    pub kind: AiScriptBasicErrorKind,
    pub message: String,
    pub pos: Option<Position>,
}

impl AiScriptBasicError {
    /// An error with the given parts.
    pub fn new(kind: AiScriptBasicErrorKind, message: String, pos: Option<Position>) -> (r:
        AiScriptBasicError)
        ensures
            r.kind == kind,
            r.message@ == message@,
            r.pos == pos,
    {
        AiScriptBasicError { kind, message, pos }
    }
}

impl AiScriptError for AiScriptBasicError {
    fn name(&self) -> (r: &'static str)
        ensures
            r@ == self.kind.name_spec(),
    {
        self.kind.name()
    }

    fn message(&self) -> (r: &str)
        ensures
            r@ == self.message@,
    {
        self.message.as_str()
    }

    fn pos(&self) -> (r: Option<Position>)
        ensures
            r == self.pos,
    {
        self.pos
    }
}

/// A parse-time error: always of the syntax kind, always with a position.
#[derive(Clone, Debug, PartialEq, Eq)]
pub struct AiScriptSyntaxError(pub AiScriptBasicError);

impl AiScriptSyntaxError {
    /// A syntax error with the given message at `pos`.
    pub fn new(message: String, pos: Position) -> (r: AiScriptSyntaxError)
        ensures
            r.0.kind == AiScriptBasicErrorKind::Syntax,
            r.0.message@ == message@,
            r.0.pos == Some(pos),
    {
        AiScriptSyntaxError(AiScriptBasicError::new(AiScriptBasicErrorKind::Syntax, message, Some(pos)))
    }

    /// The error as a basic error of the syntax kind.
    pub fn into_basic(self) -> (r: AiScriptBasicError)
        ensures
            r == self.0,
    {
        self.0
    }
}

impl AiScriptError for AiScriptSyntaxError {
    fn name(&self) -> (r: &'static str)
        ensures
            r@ == "Syntax"@,
    {
        "Syntax"
    }

    fn message(&self) -> (r: &str)
        ensures
            r@ == self.0.message@,
    {
        self.0.message.as_str()
    }

    fn pos(&self) -> (r: Option<Position>)
        ensures
            r == self.0.pos,
    {
        self.0.pos
    }
}

/// A syntax error with the given message at `pos`.
pub fn syntax_error(message: &str, pos: Position) -> (r: AiScriptBasicError)
    ensures
        r.kind == AiScriptBasicErrorKind::Syntax,
        r.message@ == message@,
        r.pos == Some(pos),
{
    AiScriptSyntaxError::new(message.to_owned(), pos).into_basic()
}

/// The text of an error: its name and message, then its position in brackets if it has one.
pub open spec fn error_text(name: Seq<char>, message: Seq<char>, pos: Option<Position>) -> Seq<char> {
    match pos {
        Some(p) => name + ": "@ + message + " ("@ + p.display_spec() + ")"@,
        None => name + ": "@ + message,
    }
}

/// The text of an error with the given name, message and position.
fn error_text_of(name: &str, message: &str, pos: Option<Position>) -> (r: String)
    ensures
        r@ == error_text(name@, message@, pos),
{
    let mut r = name.to_owned();
    r.append(": ");
    r.append(message);
    if let Some(p) = pos {
        r.append(" (");
        r.append(p.display_text().as_str());
        r.append(")");
    }
    r
}

impl AiScriptBasicError {
    /// The text of the error: "name: message (line:column)", without the bracket where it
    /// has no position.
    pub fn debug_text(&self) -> (r: String)
        ensures
            r@ == error_text(self.kind.name_spec(), self.message@, self.pos),
    {
        error_text_of(self.kind.name(), self.message.as_str(), self.pos)
    }
}

impl AiScriptSyntaxError {
    /// The text of the error: "Syntax: message (line:column)".
    pub fn debug_text(&self) -> (r: String)
        ensures
            r@ == error_text("Syntax"@, self.0.message@, self.0.pos),
    {
        error_text_of("Syntax", self.0.message.as_str(), self.0.pos)
    }
}

/// An error of the given kind without a position.
pub fn plain_error(kind: AiScriptBasicErrorKind, message: &str) -> (r: AiScriptBasicError)
    ensures
        r.kind == kind,
        r.message@ == message@,
        r.pos is None,
{
    AiScriptBasicError::new(kind, message.to_owned(), None)
}

} // verus!
