//! Places in a text: rows and columns as the syntax tree counts them, and positions and ranges as
//! the protocol counts them.

use vstd::prelude::*;

verus! {

/// A zero-based position in a document.
#[derive(Clone, Copy, Debug, PartialEq, Eq, Structural)]
pub struct Position {
    pub line: u32,
    pub character: u32,
}

/// A range in a document; its end is not part of it.
#[derive(Clone, Copy, Debug, PartialEq, Eq, Structural)]
pub struct Range {
    pub start: Position,
    pub end: Position,
}

/// A zero-based row and column of a syntax tree.
#[derive(Clone, Copy, Debug, PartialEq, Eq, Structural)]
pub struct Point {
    pub row: usize,
    pub column: usize,
}

/// The part of a text that a node of a syntax tree covers.
#[derive(Clone, Copy, Debug, PartialEq, Eq, Structural)]
pub struct NodeRange {
    pub start_byte: usize,
    pub end_byte: usize,
    pub start_point: Point,
    pub end_point: Point,
}

impl Position {
    pub fn new(line: u32, character: u32) -> (position: Position)
        ensures
            position == (Position { line, character }),
    {
        Position { line, character }
    }
}

impl Range {
    pub fn new(start: Position, end: Position) -> (range: Range)
        ensures
            range == (Range { start, end }),
    {
        Range { start, end }
    }
}

/// The position with the row and column of `point`, if the protocol can count that far.
pub open spec fn position_of(point: Point) -> Option<Position> {
    if point.row <= u32::MAX && point.column <= u32::MAX {
        Some(Position { line: point.row as u32, character: point.column as u32 })
    } else {
        None
    }
}

/// The range that a node covers, if the protocol can count that far.
pub open spec fn range_of(range: NodeRange) -> Option<Range> {
    match (position_of(range.start_point), position_of(range.end_point)) {
        (Some(start), Some(end)) => Some(Range { start, end }),
        _ => None,
    }
}

/// Returns the position with the row and column of `point`, or nothing if one of them is too
/// large for the protocol.
pub fn to_position(point: Point) -> (position: Option<Position>)
    ensures
        position == position_of(point),
{
    if point.row as u64 <= u32::MAX as u64 && point.column as u64 <= u32::MAX as u64 {
        Some(Position::new(point.row as u32, point.column as u32))
    } else {
        None
    }
}

/// Returns the range that a node covers, or nothing if it is too large for the protocol.
pub fn to_range(range: NodeRange) -> (converted: Option<Range>)
    ensures
        converted == range_of(range),
{
    match (to_position(range.start_point), to_position(range.end_point)) {
        (Some(start), Some(end)) => Some(Range::new(start, end)),
        _ => None,
    }
}

/// A point has a position exactly if the protocol can count to its row and to its column, and the
/// position then has just these numbers.
pub proof fn law_position_keeps_row_and_column(point: Point)
    ensures
        position_of(point) is Some <==> point.row <= 0xffff_ffff && point.column <= 0xffff_ffff,
        position_of(point) matches Some(position) ==> position.line == point.row
            && position.character == point.column,
{
}

/// A node's range can be told exactly if the protocol can count to all its rows and columns. It
/// then begins where the node begins and ends where the node ends, whatever bytes the node covers.
pub proof fn law_range_keeps_both_ends(range: NodeRange)
    ensures
        range_of(range) is Some <==> {
            &&& range.start_point.row <= 0xffff_ffff
            &&& range.start_point.column <= 0xffff_ffff
            &&& range.end_point.row <= 0xffff_ffff
            &&& range.end_point.column <= 0xffff_ffff
        },
        range_of(range) matches Some(converted) ==> {
            &&& converted.start.line == range.start_point.row
            &&& converted.start.character == range.start_point.column
            &&& converted.end.line == range.end_point.row
            &&& converted.end.character == range.end_point.column
        },
{
}

} // verus!
