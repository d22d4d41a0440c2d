use vstd::prelude::*;
use vstd::string::StringExecFns;

verus! {

/// The kinds of failure the library reports.
#[derive(Clone, Copy, Debug, PartialEq, Eq, Structural)]
pub enum ErrorType {
    /// A rule definition is structurally invalid or names an unknown binding.
    RuleParseError,
    /// The expression text is not accepted by the grammar.
    SyntaxError,
    /// A binding was registered under a label that is already taken.
    BindingError,
    /// A variable was requested under a name the expression does not hold.
    VariableAccessError,
    /// An empty program was evaluated.
    NotInitialisedError,
    /// A defensive check failed.
    InternalError,
}

/// A failure: its kind and a message for the reader.
#[derive(Clone, Debug)]
pub struct Error {
    pub error_type: ErrorType,
    pub message: String,
}

/// The result of evaluating something of value kind `T`.
pub type Outcome<T> = Result<T, Error>;

impl Error {
    /// An error of the given kind that carries `message`.
    pub fn new(error_type: ErrorType, message: &str) -> (e: Error)
        ensures
            e.error_type == error_type,
            e.message@ == message@,
    {
        Error { error_type, message: String::from_str(message) }
    }

    /// An error of the given kind whose message is `prefix` followed by `detail`.
    pub fn with_detail(error_type: ErrorType, prefix: &str, detail: &str) -> (e: Error)
        ensures
            e.error_type == error_type,
            e.message@ == prefix@ + detail@,
    {
        Error { error_type, message: String::from_str(prefix).concat(detail) }
    }
}

/// What a computation may end in, as contracts speak of it: a failure that
/// the library itself reports, with its kind and its message, or an error
/// that a binding raised and that is handed on unchanged.
pub enum Failure {
    Reported(ErrorType, Seq<char>),
    Raised(Error),
}

impl Failure {
    /// The kind of the failure.
    pub open spec fn kind(self) -> ErrorType {
        match self {
            Failure::Reported(kind, _) => kind,
            Failure::Raised(e) => e.error_type,
        }
    }
}

/// Whether the error `e` is the failure `f`.
pub open spec fn fails_as(e: Error, f: Failure) -> bool {
    match f {
        Failure::Reported(kind, message) => e.error_type == kind && e.message@ == message,
        Failure::Raised(g) => e == g,
    }
}

/// Whether the executable result `r` is the outcome `s`.
pub open spec fn agrees<T>(r: Outcome<T>, s: Result<T, Failure>) -> bool {
    match (r, s) {
        (Ok(a), Ok(b)) => a == b,
        (Err(e), Err(f)) => fails_as(e, f),
        _ => false,
    }
}

} // verus!
