//! The blame model: which contract broke, in which part of it, and whose fault it is.

use crate::term::RawSpan;
use vstd::prelude::*;
use vstd::string::*;

verus! {

/// A path into a structural contract, from its top level down to where it was violated.
#[derive(Debug, PartialEq)]
pub enum TyPath {
    Nil(),
    Domain(Box<TyPath>),
    Codomain(Box<TyPath>),
}

/// One application of a contract: its tag, the blame polarity (`true` blames the value,
/// `false` the context), the path of the violation within the contract, and where the
/// contract was attached.
#[derive(Debug, PartialEq)]
pub struct Label {
    pub tag: String,
    pub polarity: bool,
    pub path: TyPath,
    pub span: RawSpan,
}

/// The trace that a path renders to: `Domain(Codomain(Nil))` and the like.
pub open spec fn path_text(p: TyPath) -> Seq<char>
    decreases p,
{
    match p {
        TyPath::Nil() => "Nil"@,
        TyPath::Domain(q) => "Domain("@ + path_text(*q) + ")"@,
        TyPath::Codomain(q) => "Codomain("@ + path_text(*q) + ")"@,
    }
}

/// The prose that a polarity renders to.
pub open spec fn polarity_text(polarity: bool) -> Seq<char> {
    if polarity {
        "  The blame is on the value (positive blame)\n"@
    } else {
        "  The blame is on the context (negative blame)\n"@
    }
}

impl TyPath {
    /// Whether the path is empty, that is the violation is at the contract's top level.
    pub fn is_nil(&self) -> (r: bool)
        ensures
            r <==> *self is Nil,
    {
        match self {
            TyPath::Nil() => true,
            _ => false,
        }
    }

    /// Renders the path as a trace.
    pub fn render(&self) -> (r: String)
        ensures
            r@ == path_text(*self),
        decreases self,
    {
        match self {
            TyPath::Nil() => String::from_str("Nil"),
            TyPath::Domain(q) => String::from_str("Domain(").concat(q.render().as_str()).concat(
                ")",
            ),
            TyPath::Codomain(q) => String::from_str("Codomain(").concat(
                q.render().as_str(),
            ).concat(")"),
        }
    }
}

/// Renders a polarity as the prose that says who is blamed.
pub fn polarity_prose(polarity: bool) -> (r: String)
    ensures
        r@ == polarity_text(polarity),
{
    if polarity {
        String::from_str("  The blame is on the value (positive blame)\n")
    } else {
        String::from_str("  The blame is on the context (negative blame)\n")
    }
}

} // verus!
