//! What the diagnostic engine reads of evaluated terms: positions, short renderings and
//! type names.

use codespan::FileId;
use vstd::prelude::*;

verus! {

/// A half-open range `[start, end)` of byte offsets within the registered source `src_id`.
#[derive(Clone, Copy, Debug, PartialEq)]
pub struct RawSpan {
    pub src_id: FileId,
    pub start: u32,
    pub end: u32,
}

/// An identifier of the language.
#[derive(Clone, Debug, PartialEq)]
pub struct Ident(pub String);

/// A term as the evaluator hands it over: its shallow rendering, the name of its type when
/// the term is evaluated enough to know it, and its position in the source. A term that is
/// the result of a computation has no position.
#[derive(Clone, Debug, PartialEq)]
pub struct RichTerm {
    pub repr: String,
    pub known_type: Option<String>,
    pub pos: Option<RawSpan>,
}

/// The call-site frames recorded when a contract was broken.
#[derive(Clone, Debug, PartialEq)]
pub struct CallStack {
    pub frames: Vec<RawSpan>,
}

impl RichTerm {
    /// A term with the given rendering, type name and position.
    pub fn new(repr: String, known_type: Option<String>, pos: Option<RawSpan>) -> (r: RichTerm)
        ensures
            r.repr@ == repr@,
            r.known_type == known_type,
            r.pos == pos,
    {
        RichTerm { repr, known_type, pos }
    }

    /// A short rendering of the term, usable where it has no position.
    pub fn shallow_repr(&self) -> (r: String)
        ensures
            r@ == self.repr@,
    {
        self.repr.clone()
    }

    /// The name of the term's type, if known.
    pub fn type_of(&self) -> (r: Option<String>)
        ensures
            r is Some <==> self.known_type is Some,
            r is Some ==> r->Some_0@ == self.known_type->Some_0@,
    {
        match &self.known_type {
            Some(t) => Some(t.clone()),
            None => None,
        }
    }
}

} // verus!
