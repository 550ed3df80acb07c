use vstd::prelude::*;

verus! {

/// Ways in which turning a project branding string into a value object fails.
#[derive(Debug, Clone, PartialEq, Eq, Structural)]
pub enum ProjectBrandingError {
    EmptyName,
    EmptyDescription,
    EmptyEmblem,
    EmptyVersion,
}

/// Error produced while splitting expression text into tokens.
#[derive(Debug, Clone, PartialEq, Eq)]
pub enum LexerError {
    /// A character that cannot start any token, with its byte offset.
    UnexpectedChar(char, usize),
    /// A string literal without its closing quote, with the byte offset of its opening quote.
    UnterminatedString(usize),
    /// An integer literal whose value does not fit in an `i64`, with the
    /// byte offset of its first character.
    IntegerOutOfRange(usize),
}

/// Why an action reference cannot be used.
#[derive(Debug, Clone, PartialEq, Eq)]
pub enum ActionError {
    /// The reference, as given, is not one of the accepted forms.
    InvalidReference(String),
}

/// Why a workflow's jobs cannot be put in order.
#[derive(Debug, Clone, PartialEq, Eq)]
pub enum PlanError {
    /// `job` needs `dependency`, which leads back to `job` through needs.
    CycleDetected { job: String, dependency: String },
    /// `job` needs `dependency`, which is not a job of the workflow.
    MissingDependency { job: String, dependency: String },
    /// Some jobs could not be ordered.
    UnresolvedDependencies,
}

/// Error produced while evaluating an expression or calling a built-in
/// function; each kind carries its message.
#[derive(Debug, Clone, PartialEq, Eq)]
pub enum EvalError {
    /// An operand or argument has the wrong type, or a name is unknown.
    TypeError(String),
    /// A `format` template is malformed or refers to a missing argument.
    FormatError(String),
    /// A function got a number of arguments outside its range.
    ArgCount(String),
    /// JSON text could not be read or written.
    JsonError(String),
}

/// The abstract content of an [`EvalError`]: its kind and message.
pub enum EvalErrorModel {
    TypeError(Seq<char>),
    FormatError(Seq<char>),
    ArgCount(Seq<char>),
    JsonError(Seq<char>),
}

impl View for EvalError {
    type V = EvalErrorModel;

    open spec fn view(&self) -> EvalErrorModel {
        match self {
            EvalError::TypeError(m) => EvalErrorModel::TypeError(m@),
            EvalError::FormatError(m) => EvalErrorModel::FormatError(m@),
            EvalError::ArgCount(m) => EvalErrorModel::ArgCount(m@),
            EvalError::JsonError(m) => EvalErrorModel::JsonError(m@),
        }
    }
}

/// Error produced while parsing an expression: a message and the index of
/// the token at which parsing stopped.
#[derive(Debug, Clone, PartialEq, Eq)]
pub struct ParseError {
    message: String,
    position: usize,
}

impl ParseError {
    /// The message.
    pub closed spec fn message_view(&self) -> Seq<char> {
        self.message@
    }

    /// The token index.
    pub closed spec fn position_view(&self) -> int {
        self.position as int
    }

    pub fn new(message: String, position: usize) -> (r: Self)
        ensures
            r.message_view() == message@,
            r.position_view() == position,
    {
        ParseError { message, position }
    }

    /// The message describing what went wrong.
    pub fn message(&self) -> (r: &str)
        ensures
            r@ == self.message_view(),
    {
        self.message.as_str()
    }

    /// The token index at which parsing stopped.
    pub fn position(&self) -> (r: usize)
        ensures
            r == self.position_view(),
    {
        self.position
    }
}

/// Why a JSON text cannot be read.
#[derive(Debug, Clone, PartialEq, Eq)]
pub struct JsonTextError {
    message: String,
}

impl JsonTextError {
    /// The message.
    pub closed spec fn message_view(&self) -> Seq<char> {
        self.message@
    }

    pub fn new(message: String) -> (r: Self)
        ensures
            r.message_view() == message@,
    {
        JsonTextError { message }
    }

    /// The message describing what went wrong.
    pub fn message(&self) -> (r: &str)
        ensures
            r@ == self.message_view(),
    {
        self.message.as_str()
    }
}

} // verus!
