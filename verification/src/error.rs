//! The error a refused operation returns: a class and one line for a person.
use vstd::prelude::*;

verus! {

/// The class of an error.
#[derive(Debug, Clone, Copy, PartialEq, Eq, Structural)]
pub enum ErrorKind {
    InvalidInput,
    NotFound,
    PermissionDenied,
    TimedOut,
    AlreadyExists,
    Unsupported,
    AddrInUse,
    Other,
}

/// An error: its class and one line a person can act on.
#[derive(Debug, PartialEq, Eq)]
pub struct Error {
    pub kind: ErrorKind,
    pub message: String,
}

/// What an error is.
pub struct ErrorModel {
    pub kind: ErrorKind,
    pub message: Seq<char>,
}

impl View for Error {
    type V = ErrorModel;

    open spec fn view(&self) -> ErrorModel {
        ErrorModel { kind: self.kind, message: self.message@ }
    }
}

/// What an operation answered, its error taken for what it is.
pub open spec fn answer<T>(r: Result<T, Error>) -> Result<T, ErrorModel> {
    match r {
        Ok(v) => Ok(v),
        Err(e) => Err(e@),
    }
}

impl Error {
    /// The error of class `kind` that says `message`.
    pub fn new(kind: ErrorKind, message: String) -> (r: Self)
        ensures
            r.kind == kind,
            r.message@ == message@,
    {
        Error { kind, message }
    }

    /// An error of no particular class that says `message`.
    pub fn other(message: String) -> (r: Self)
        ensures
            r.kind == ErrorKind::Other,
            r.message@ == message@,
    {
        Error { kind: ErrorKind::Other, message }
    }

    /// The error's class.
    pub fn kind(&self) -> (r: ErrorKind)
        ensures
            r == self.kind,
    {
        self.kind
    }

    /// What the error says.
    pub fn to_text(&self) -> (r: String)
        ensures
            r@ == self.message@,
    {
        self.message.clone()
    }
}

impl Clone for Error {
    fn clone(&self) -> (r: Self)
        ensures
            r == *self,
    {
        Error { kind: self.kind, message: self.message.clone() }
    }
}

/// **Law: an error is seen whole.** Its class and what it says; and an answer is an error exactly where the
/// operation gave one.
pub proof fn law_an_error_is_seen_whole<T>(e: Error, r: Result<T, Error>)
    ensures
        e@.kind == e.kind,
        e@.message == e.message@,
        r is Ok <==> answer(r) is Ok,
        r matches Ok(v) ==> answer(r) == Ok::<T, ErrorModel>(v),
        r matches Err(x) ==> (answer(r) matches Err(y) && y.kind == x.kind && y.message == x.message@),
{
}

} // verus!
