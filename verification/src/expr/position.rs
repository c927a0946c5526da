//! Positions and spans in a source text or in a list of tokens.

use vstd::prelude::*;
use vstd::std_specs::convert::FromSpecImpl;

verus! {

/// An offset from the start of a text.
#[derive(Debug, Copy, Clone, PartialEq, Eq, Structural)]
pub struct BytePos(pub usize);

impl BytePos {
    /// The position `rhs` further on.
    pub fn add(self, rhs: usize) -> (pos: Self)
        requires
            self.0 + rhs <= usize::MAX,
        ensures
            pos.0 == self.0 + rhs,
    {
        Self(self.0 + rhs)
    }
}

impl From<usize> for BytePos {
    fn from(value: usize) -> (pos: Self) {
        Self(value)
    }
}

impl FromSpecImpl<usize> for BytePos {
    open spec fn obeys_from_spec() -> bool {
        true
    }

    open spec fn from_spec(value: usize) -> Self {
        Self(value)
    }
}

/// The half-open range from `start` to `end`.
#[derive(Debug, Copy, Clone, PartialEq, Eq, Structural)]
pub struct Span {
    pub start: BytePos,
    pub end: BytePos,
}

impl Span {
    /// The span from `start` to `end`.
    pub fn new(start: usize, end: usize) -> (span: Self)
        ensures
            span == Self::between(start, end),
    {
        Self { start: BytePos(start), end: BytePos(end) }
    }

    /// Span a single position.
    pub fn at(position: usize) -> (span: Self)
        requires
            position < usize::MAX,
        ensures
            span == Self::between(position, (position + 1) as usize),
    {
        Self { start: BytePos(position), end: BytePos(position).add(1) }
    }

    /// The span from `start` to `end`.
    pub open spec fn between(start: usize, end: usize) -> Span {
        Span { start: BytePos(start), end: BytePos(end) }
    }
}

/// A value and where it stands.
#[derive(Debug, Clone)]
pub struct WithSpan<T> {
    pub value: T,
    pub span: Span,
}

impl<T: DeepView> DeepView for WithSpan<T> {
    type V = WithSpan<T::V>;

    open spec fn deep_view(&self) -> WithSpan<T::V> {
        WithSpan { value: self.value.deep_view(), span: self.span }
    }
}

impl<T> WithSpan<T> {
    /// The value with the span from `start` to `end`.
    pub fn new(value: T, start: usize, end: usize) -> (spanned: Self)
        ensures
            spanned.value == value,
            spanned.span == Span::between(start, end),
    {
        Self { value, span: Span::new(start, end) }
    }

    /// Span a single position.
    pub fn at(value: T, pos: usize) -> (spanned: Self)
        requires
            pos < usize::MAX,
        ensures
            spanned.value == value,
            spanned.span == Span::between(pos, (pos + 1) as usize),
    {
        Self { value, span: Span::at(pos) }
    }
}

} // verus!
