//! Diagnostics: what the tokenizer and the parser report about a source text.

use vstd::prelude::*;
use vstd::std_specs::cmp::PartialEqSpecImpl;

verus! {

/// What a [`RoughError`] says: the message, and where in the source it
/// applies, as a byte offset, when that is known.
pub struct Diagnostic {
    pub message: Seq<char>,
    pub offset: Option<nat>,
}

/// A problem found in the source text. Created where the problem is
/// detected and never changed afterwards.
#[derive(Debug)]
pub struct RoughError {
    msg: String,
    offset: Option<usize>,
}

/// Either a value or the diagnostics that explain why there is none.
pub type RoughResult<T> = Result<T, Vec<RoughError>>;

impl View for RoughError {
    type V = Diagnostic;

    closed spec fn view(&self) -> Diagnostic {
        Diagnostic {
            message: self.msg@,
            offset: match self.offset {
                Some(n) => Some(n as nat),
                None => None,
            },
        }
    }
}

/// The diagnostics that a list of errors stands for, in order.
pub open spec fn diagnostics(errors: Seq<RoughError>) -> Seq<Diagnostic> {
    errors.map_values(|e: RoughError| e@)
}

impl RoughError {
    /// A diagnostic that is not tied to a place in the source.
    pub fn new(message: String) -> (r: RoughError)
        ensures
            r@ == (Diagnostic { message: message@, offset: None }),
    {
        RoughError { msg: message, offset: None }
    }

    /// A diagnostic about the source at byte `offset`.
    pub fn at(message: String, offset: usize) -> (r: RoughError)
        ensures
            r@ == (Diagnostic { message: message@, offset: Some(offset as nat) }),
    {
        RoughError { msg: message, offset: Some(offset) }
    }

    /// The text of the diagnostic.
    pub fn message(&self) -> (r: &String)
        ensures
            r@ == self@.message,
    {
        &self.msg
    }

    /// The byte offset the diagnostic points at, if it has one.
    pub fn offset(&self) -> (r: Option<usize>)
        ensures
            r is Some == self@.offset is Some,
            r matches Some(n) ==> self@.offset == Some(n as nat),
    {
        self.offset
    }
}

impl Clone for RoughError {
    fn clone(&self) -> (r: RoughError)
        ensures
            r@ == self@,
    {
        RoughError { msg: self.msg.clone(), offset: self.offset }
    }
}

impl PartialEq for RoughError {
    fn eq(&self, other: &RoughError) -> (r: bool) {
        let same_offset = match self.offset {
            Some(a) => match other.offset {
                Some(b) => a == b,
                None => false,
            },
            None => other.offset.is_none(),
        };
        self.msg == other.msg && same_offset
    }
}

impl PartialEqSpecImpl for RoughError {
    open spec fn obeys_eq_spec() -> bool {
        true
    }

    open spec fn eq_spec(&self, other: &RoughError) -> bool {
        self@ == other@
    }
}

/// A copy of a list of errors, entry by entry.
pub fn clone_errors(errors: &Vec<RoughError>) -> (r: Vec<RoughError>)
    ensures
        diagnostics(r@) == diagnostics(errors@),
{
    let mut copy: Vec<RoughError> = Vec::new();
    let mut i: usize = 0;
    while i < errors.len()
        invariant
            i <= errors.len(),
            copy.len() == i,
            forall|j: int| 0 <= j < i ==> copy[j]@ == errors[j]@,
        decreases errors.len() - i,
    {
        copy.push(errors[i].clone());
        i += 1;
    }
    copy
}

} // verus!
