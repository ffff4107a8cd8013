//! Descriptions of spans of buffer content.

use vstd::prelude::*;
use crate::buffer::Mark;

verus! {

/// Where inside a line a boundary falls.
#[derive(Clone, Copy, Debug, PartialEq, Eq)]
pub enum Anchor {
    /// The first column of the line.
    Start,
    /// The position after the last character of the line.
    End,
    /// The column of the position the motion started from.
    Same,
}

/// The unit a text object is measured in.
#[derive(Clone, Copy, Debug, PartialEq, Eq)]
pub enum Kind {
    Char,
    Line(Anchor),
}

/// A displacement from a mark.
///
/// The direction is the variant and the distance is unsigned, so a distance
/// is never negative.
#[derive(Clone, Copy, Debug, PartialEq, Eq)]
pub enum Offset {
    Forward(usize, Mark),
    Backward(usize, Mark),
}

impl Offset {
    /// How many units the offset spans, whatever its direction.
    pub open spec fn spec_distance(self) -> usize {
        match self {
            Offset::Forward(n, _) => n,
            Offset::Backward(n, _) => n,
        }
    }

    /// The mark the offset is measured from.
    pub open spec fn spec_mark(self) -> Mark {
        match self {
            Offset::Forward(_, mark) => mark,
            Offset::Backward(_, mark) => mark,
        }
    }

    /// How many units the offset spans, whatever its direction.
    #[verifier::when_used_as_spec(spec_distance)]
    pub fn distance(self) -> (n: usize)
        ensures
            n == self.spec_distance(),
    {
        match self {
            Offset::Forward(n, _) => n,
            Offset::Backward(n, _) => n,
        }
    }

    /// The mark the offset is measured from.
    #[verifier::when_used_as_spec(spec_mark)]
    pub fn mark(self) -> (mark: Mark)
        ensures
            mark == self.spec_mark(),
    {
        match self {
            Offset::Forward(_, mark) => mark,
            Offset::Backward(_, mark) => mark,
        }
    }
}

/// A span of buffer content: a unit and a directed offset from a mark.
#[derive(Clone, Copy, Debug, PartialEq, Eq)]
pub struct TextObject {
    pub kind: Kind,
    pub offset: Offset,
}

} // verus!
