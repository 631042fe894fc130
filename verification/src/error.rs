//! The errors that reading a document can raise.

use vstd::prelude::*;
use crate::attributes::Attribute;

verus! {

/// What is wrong with the value of an attribute or property.
#[derive(Debug, Clone, PartialEq, Eq)]
pub enum ValueErrorKind {
    /// The value does not follow the syntax that the attribute calls for.
    Parse(String),
    /// The value is well formed, but not one that is allowed.
    Value(String),
}

/// A `ValueErrorKind` with its messages as sequences of characters.
pub enum ValueErrorText {
    Parse(Seq<char>),
    Value(Seq<char>),
}

impl View for ValueErrorKind {
    type V = ValueErrorText;

    open spec fn view(&self) -> ValueErrorText {
        match *self {
            ValueErrorKind::Parse(s) => ValueErrorText::Parse(s@),
            ValueErrorKind::Value(s) => ValueErrorText::Value(s@),
        }
    }
}

impl ValueErrorKind {
    /// A syntax error with the message `s`.
    pub fn parse_error(s: &str) -> (r: ValueErrorKind)
        ensures
            r@ == ValueErrorText::Parse(s@),
    {
        ValueErrorKind::Parse(s.to_owned())
    }

    /// An error for a value that is not allowed, with the message `s`.
    pub fn value_error(s: &str) -> (r: ValueErrorKind)
        ensures
            r@ == ValueErrorText::Value(s@),
    {
        ValueErrorKind::Value(s.to_owned())
    }

    /// A copy of this error.
    pub fn duplicate(&self) -> (r: ValueErrorKind)
        ensures
            r == *self,
    {
        match self {
            ValueErrorKind::Parse(s) => ValueErrorKind::Parse(s.clone()),
            ValueErrorKind::Value(s) => ValueErrorKind::Value(s.clone()),
        }
    }
}

/// An error in an attribute of an element.
#[derive(Debug, Clone, PartialEq, Eq)]
pub struct NodeError {
    /// The attribute that the error is in.
    pub attr: Attribute,
    /// What is wrong with its value.
    pub err: ValueErrorKind,
}

/// A `NodeError` with its messages as sequences of characters.
pub struct NodeErrorText {
    pub attr: Attribute,
    pub err: ValueErrorText,
}

impl View for NodeError {
    type V = NodeErrorText;

    open spec fn view(&self) -> NodeErrorText {
        NodeErrorText { attr: self.attr, err: self.err@ }
    }
}

impl NodeError {
    /// The error `error` in the attribute `attr`.
    pub fn attribute_error(attr: Attribute, error: ValueErrorKind) -> (r: NodeError)
        ensures
            r.attr == attr,
            r.err == error,
    {
        NodeError { attr, err: error }
    }

    /// A copy of this error.
    pub fn duplicate(&self) -> (r: NodeError)
        ensures
            r == *self,
    {
        NodeError { attr: self.attr, err: self.err.duplicate() }
    }
}

/// The state of an element after its attributes were read: in order, or in
/// error.
pub type NodeResult = Result<(), NodeError>;

/// A `NodeResult` with its messages as sequences of characters.
pub open spec fn node_result_text(r: NodeResult) -> Result<(), NodeErrorText> {
    match r {
        Ok(_) => Ok(()),
        Err(e) => Err(e@),
    }
}

/// A failure of the drawing backend or of the shaping backend.
#[derive(Debug, Clone, PartialEq, Eq)]
pub struct RenderingError {
    /// What the backend says went wrong.
    pub message: String,
}

impl View for RenderingError {
    type V = Seq<char>;

    open spec fn view(&self) -> Seq<char> {
        self.message@
    }
}

impl RenderingError {
    /// A copy of this error.
    pub fn duplicate(&self) -> (r: RenderingError)
        ensures
            r@ == self@,
    {
        RenderingError { message: self.message.clone() }
    }
}

/// Why a reference to an element does not resolve.
#[derive(Debug, Clone, Copy, PartialEq, Eq, Structural)]
pub enum ReferenceError {
    /// No element has the identifier.
    NotFound,
    /// The reference stands at or below the element that it names.
    Circular,
}

} // verus!
