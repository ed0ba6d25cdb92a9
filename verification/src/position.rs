//! Source positions: 1-indexed line and byte-column pairs, and spans of them.

use vstd::prelude::*;

verus! {

/// A point in a source text: a line number and a byte column, both counted from 1.
#[derive(Debug, Clone, Copy, PartialEq, Eq, Structural, Hash)]
pub struct LineColumn {
    pub line: usize,
    pub column: usize,
}

/// A span in a source text, from its first to its last byte.
#[derive(Debug, Clone, Copy, PartialEq, Eq, Structural, Hash)]
pub struct Sourcepos {
    pub start: LineColumn,
    pub end: LineColumn,
}

/// The point `offset` columns to the right of `point`, stopping at the largest column.
pub open spec fn shifted(point: LineColumn, offset: usize) -> LineColumn {
    LineColumn {
        line: point.line,
        column: if point.column + offset > usize::MAX {
            usize::MAX
        } else {
            (point.column + offset) as usize
        },
    }
}

/// Whether `a` comes strictly before `b`: by line, then by column.
pub open spec fn point_before(a: LineColumn, b: LineColumn) -> bool {
    a.line < b.line || (a.line == b.line && a.column < b.column)
}

impl LineColumn {
    pub fn new(line: usize, column: usize) -> (point: LineColumn)
        ensures
            point.line == line,
            point.column == column,
    {
        LineColumn { line, column }
    }

    /// Moves the point to the right on its line.
    pub fn column_add(&self, offset: usize) -> (point: LineColumn)
        ensures
            point == shifted(*self, offset),
    {
        LineColumn { line: self.line, column: self.column.saturating_add(offset) }
    }

    /// Strict order of two points.
    pub fn is_before(&self, other: &LineColumn) -> (r: bool)
        ensures
            r == point_before(*self, *other),
    {
        self.line < other.line || (self.line == other.line && self.column < other.column)
    }
}

impl Sourcepos {
    /// The span from `(start_line, start_column)` to `(end_line, end_column)`.
    pub fn new(start_line: usize, start_column: usize, end_line: usize, end_column: usize) -> (pos:
        Sourcepos)
        ensures
            pos.start.line == start_line,
            pos.start.column == start_column,
            pos.end.line == end_line,
            pos.end.column == end_column,
    {
        Sourcepos {
            start: LineColumn { line: start_line, column: start_column },
            end: LineColumn { line: end_line, column: end_column },
        }
    }
}

} // verus!
