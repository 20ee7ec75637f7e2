//! Positions, slices and pairs of code fragments.

use vstd::prelude::*;

verus! {

/// A point in a source file.
#[derive(Clone, Copy, Debug, PartialEq, Eq, Structural)]
pub struct CodePosition {
    pub line: u32,
    pub column: u32,
}

impl CodePosition {
    pub fn new(line: u32, column: u32) -> (position: Self)
        ensures
            position == (CodePosition { line, column }),
    {
        CodePosition { line, column }
    }
}

/// One contiguous fragment of a source file, from `start` to `end`, both included.
#[derive(Clone, Copy, Debug, PartialEq, Eq, Structural)]
pub struct CodeSlice {
    pub start: CodePosition,
    pub end: CodePosition,
}

impl CodeSlice {
    pub fn new(start: CodePosition, end: CodePosition) -> (slice: Self)
        ensures
            slice == (CodeSlice { start, end }),
    {
        CodeSlice { start, end }
    }
}

/// A fragment of the project file and the fragment of the example file that
/// the detector reported as its clone.
#[derive(Clone, Copy, Debug, PartialEq, Eq, Structural)]
pub struct ClonePair {
    pub project: CodeSlice,
    pub example_sketch: CodeSlice,
}

impl ClonePair {
    pub fn new(project: CodeSlice, example_sketch: CodeSlice) -> (pair: Self)
        ensures
            pair == (ClonePair { project, example_sketch }),
    {
        ClonePair { project, example_sketch }
    }
}

} // verus!
