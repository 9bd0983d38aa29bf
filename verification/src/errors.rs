//! Diagnostic accumulation for a resolution pass.
//!
//! A resolution pass never stops at the first problem: every diagnostic is
//! recorded in an [`ErrorList`] and the whole list is reported at the end.
//! An empty list means the pass succeeded.

use vstd::prelude::*;

verus! {

/// The kind of a problem found while resolving an annotated function.
#[derive(Clone, Copy, Debug, PartialEq, Eq, Structural)]
pub enum DiagnosticKind {
    /// A configuration key was set more than once; the first value wins.
    DuplicateKey,
    /// A directive's value has the wrong kind for its key.
    WrongType,
    /// A directive's key is not in the closed option set.
    UnrecognizedKey,
    /// A directive is not in `key = value` form.
    MalformedDirective,
    /// The function carries no documentation to use as a description.
    MissingDescription,
    /// An annotation appeared in a position where it is not supported.
    UnsupportedContext,
    /// The function has no parameters, so no target can be built.
    EmptyParameterList,
}

/// One reportable problem: its kind and the source location it was found at.
#[derive(Clone, Copy, Debug, PartialEq, Eq, Structural)]
pub struct Error {
    pub kind: DiagnosticKind,
    pub span: u64,
}

impl Error {
    /// Creates a new error at the given source location.
    pub fn new(span: u64, kind: DiagnosticKind) -> (r: Error)
        ensures
            r == (Error { kind, span }),
    {
        Error { kind, span }
    }

    /// The fixed message reported for this kind of error.
    pub open spec fn spec_message(self) -> Seq<char> {
        match self.kind {
            DiagnosticKind::DuplicateKey => "key specified more than once"@,
            DiagnosticKind::WrongType => "expected a value of the key's kind"@,
            DiagnosticKind::UnrecognizedKey => "argument not recognized"@,
            DiagnosticKind::MalformedDirective => "expected key = value format"@,
            DiagnosticKind::MissingDescription => "a description is required as a doc comment"@,
            DiagnosticKind::UnsupportedContext => "annotation is not supported here"@,
            DiagnosticKind::EmptyParameterList => "at least one argument is required"@,
        }
    }

    /// The human-readable message for this error.
    pub fn message(&self) -> (r: String)
        ensures
            r@ == self.spec_message(),
    {
        match self.kind {
            DiagnosticKind::DuplicateKey => String::from_str("key specified more than once"),
            DiagnosticKind::WrongType => String::from_str("expected a value of the key's kind"),
            DiagnosticKind::UnrecognizedKey => String::from_str("argument not recognized"),
            DiagnosticKind::MalformedDirective => String::from_str("expected key = value format"),
            DiagnosticKind::MissingDescription => String::from_str(
                "a description is required as a doc comment",
            ),
            DiagnosticKind::UnsupportedContext => String::from_str(
                "annotation is not supported here",
            ),
            DiagnosticKind::EmptyParameterList => String::from_str(
                "at least one argument is required",
            ),
        }
    }
}

/// An ordered collection of zero or more errors found during one pass.
#[derive(Debug)]
pub struct ErrorList {
    errors: Vec<Error>,
}

impl View for ErrorList {
    type V = Seq<Error>;

    closed spec fn view(&self) -> Seq<Error> {
        self.errors@
    }
}

impl ErrorList {
    /// Creates an empty list.
    pub fn new() -> (r: ErrorList)
        ensures
            r@ == Seq::<Error>::empty(),
    {
        ErrorList { errors: Vec::new() }
    }

    /// True when no error has been recorded.
    pub fn is_empty(&self) -> (r: bool)
        ensures
            r == (self@.len() == 0),
    {
        self.errors.len() == 0
    }

    /// Records one error after the existing ones.
    pub fn combine(&mut self, error: Error)
        ensures
            final(self)@ == old(self)@.push(error),
    {
        self.errors.push(error);
    }

    /// Records the error of a fallible step, if there was one.
    pub fn combine_result(&mut self, r: Result<(), Error>)
        ensures
            final(self)@ == match r {
                Ok(()) => old(self)@,
                Err(e) => old(self)@.push(e),
            },
    {
        if let Err(e) = r {
            self.errors.push(e);
        }
    }

    /// Keeps the value of a successful step; records the error and drops the
    /// value otherwise, so that resolution can continue with later items.
    pub fn combine_opt<T>(&mut self, r: Result<T, Error>) -> (val: Option<T>)
        ensures
            match r {
                Ok(v) => val == Some(v) && final(self)@ == old(self)@,
                Err(e) => val is None && final(self)@ == old(self)@.push(e),
            },
    {
        match r {
            Ok(v) => Some(v),
            Err(e) => {
                self.errors.push(e);
                None
            },
        }
    }

    /// Records every error of a sub-pass after the existing ones.
    pub fn combine_all(&mut self, mut other: Vec<Error>)
        ensures
            final(self)@ == old(self)@ + other@,
    {
        let n = other.len();
        let mut i: usize = 0;
        while i < n
            invariant
                n == other@.len(),
                i <= n,
                self@ == old(self)@ + other@.take(i as int),
            decreases n - i,
        {
            let e = other[i];
            self.errors.push(e);
            proof {
                assert(other@.take(i + 1 as int) =~= other@.take(i as int).push(other@[i as int]));
            }
            i = i + 1;
        }
        proof {
            assert(other@.take(n as int) =~= other@);
        }
    }

    /// Records one more error and returns the consolidated list, consuming
    /// `self`.
    pub fn combine_finish(self, error: Error) -> (r: Vec<Error>)
        ensures
            r@ == self@.push(error),
    {
        let mut errors = self.errors;
        errors.push(error);
        errors
    }

    /// Hands out every recorded error, consuming the list.
    pub fn into_vec(self) -> (r: Vec<Error>)
        ensures
            r@ == self@,
    {
        self.errors
    }

    /// Succeeds when the list is empty; otherwise hands every recorded error
    /// to the caller.
    pub fn finish(self) -> (r: Result<(), Vec<Error>>)
        ensures
            match r {
                Ok(()) => self@.len() == 0,
                Err(es) => es@ == self@ && self@.len() > 0,
            },
    {
        if self.errors.len() == 0 {
            Ok(())
        } else {
            Err(self.errors)
        }
    }
}

} // verus!
