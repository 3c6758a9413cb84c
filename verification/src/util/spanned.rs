use vstd::prelude::*;
use crate::error::context::Span;

verus! {

/// A syntax node with the span of source text it was read from.
#[derive(Debug, PartialEq, Clone)]
pub struct Spanned<T> {
    pub node: T,
    pub span: Span,
}

impl<T> Spanned<T> {
    /// `node`, read from `span`.
    pub fn of(node: T, span: Span) -> (s: Self)
        ensures
            s.node == node,
            s.span == span,
    {
        Spanned { node, span }
    }

    /// `node`, read from the text between `from` and `to`.
    pub fn new(node: T, from: usize, to: usize) -> (s: Self)
        ensures
            s.node == node,
            s.span == (Span { from, to }),
    {
        Spanned { node, span: Span::new(from, to) }
    }

    /// This node, boxed.
    pub fn boxed(self) -> (b: Box<Self>)
        ensures
            *b == self,
    {
        Box::new(self)
    }
}

} // verus!
