use vstd::prelude::*;

verus! {

/// Why a compilation stopped.
#[derive(Debug)]
pub enum Error {
    /// A missing symbol, a pop at the global scope, a scope out of range.
    SymTable(String),
    /// A lowered subtree did or did not produce an operand against expectation.
    ThreeAC(String),
    /// The register count is too low.
    RegAlloc(String),
    /// A syntax-tree node has fewer children than its kind calls for.
    PairsNext,
    /// A violation of the typing rules.
    Type,
    /// A syntax-tree node of a kind that cannot stand where it was found.
    Other(String),
}

/// The variant of an [`Error`], without its message.
#[derive(Clone, Copy, Debug, PartialEq, Eq, Structural)]
pub enum ErrorKind {
    SymTable,
    ThreeAC,
    RegAlloc,
    PairsNext,
    Type,
    Other,
}

impl Error {
    /// The variant of the error.
    pub open spec fn kind(&self) -> ErrorKind {
        match self {
            Error::SymTable(_) => ErrorKind::SymTable,
            Error::ThreeAC(_) => ErrorKind::ThreeAC,
            Error::RegAlloc(_) => ErrorKind::RegAlloc,
            Error::PairsNext => ErrorKind::PairsNext,
            Error::Type => ErrorKind::Type,
            Error::Other(_) => ErrorKind::Other,
        }
    }

    /// What is shown to the user: the message of the variants that carry one,
    /// a fixed text for the two that do not.
    pub open spec fn message_text(&self) -> Seq<char> {
        match self {
            Error::SymTable(s) => s@,
            Error::ThreeAC(s) => s@,
            Error::RegAlloc(s) => s@,
            Error::PairsNext => "failed to get next sub pair"@,
            Error::Type => "TYPE ERROR"@,
            Error::Other(s) => s@,
        }
    }

    /// The process exit code for this error: 7 for a type error, 1 for any other.
    pub open spec fn code(&self) -> u8 {
        if self is Type {
            7
        } else {
            1
        }
    }

    /// The variant of the error.
    pub fn get_kind(&self) -> (k: ErrorKind)
        ensures
            k == self.kind(),
    {
        match self {
            Error::SymTable(_) => ErrorKind::SymTable,
            Error::ThreeAC(_) => ErrorKind::ThreeAC,
            Error::RegAlloc(_) => ErrorKind::RegAlloc,
            Error::PairsNext => ErrorKind::PairsNext,
            Error::Type => ErrorKind::Type,
            Error::Other(_) => ErrorKind::Other,
        }
    }

    /// What is shown to the user.
    pub fn message(&self) -> (s: String)
        ensures
            s@ == self.message_text(),
    {
        match self {
            Error::SymTable(s) => s.clone(),
            Error::ThreeAC(s) => s.clone(),
            Error::RegAlloc(s) => s.clone(),
            Error::PairsNext => String::from_str("failed to get next sub pair"),
            Error::Type => String::from_str("TYPE ERROR"),
            Error::Other(s) => s.clone(),
        }
    }

    /// The process exit code for this error: 7 for a type error, 1 for any other.
    pub fn exit_code(&self) -> (c: u8)
        ensures
            c == self.code(),
    {
        match self {
            Error::Type => 7,
            _ => 1,
        }
    }
}

/// The outcome of a fallible step over views: the view of the value, or the
/// kind of the error.
pub open spec fn outcome<T: View>(r: Result<T, Error>) -> Result<T::V, ErrorKind> {
    match r {
        Ok(v) => Ok(v@),
        Err(e) => Err(e.kind()),
    }
}

/// The outcome of a fallible step whose value is its own model.
pub open spec fn plain<T>(r: Result<T, Error>) -> Result<T, ErrorKind> {
    match r {
        Ok(v) => Ok(v),
        Err(e) => Err(e.kind()),
    }
}

} // verus!
