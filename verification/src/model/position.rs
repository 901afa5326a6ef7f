//! Places in a text: from a byte offset to a line and a column.

use bstr::ByteSlice;
use vstd::prelude::*;
use vstd::slice::slice_subrange;
use vstd::string::StringSliceAdditionalSpecFns;

verus! {

/// Line and column of a place in a text, both counted from one.
#[derive(Clone, Copy, Debug)]
pub struct Position {
    pub line: u32,
    pub col: u32,
}

impl Position {
    /// Lines and columns are counted from one.
    pub open spec fn wf(&self) -> bool {
        self.line >= 1 && self.col >= 1
    }
}

impl Default for Position {
    fn default() -> (r: Self)
        ensures
            r.line == 1,
            r.col == 1,
    {
        Position { line: 1, col: 1 }
    }
}

/// Why an offset has no position.
#[derive(Clone, Copy, Debug, PartialEq, Eq, Structural)]
pub enum PositionError {
    /// The offset is the length of the text or lies beyond it.
    OffsetOutOfRange,
    /// No grapheme of the offset's line holds it, or the line or the column
    /// does not fit the position's numbers.
    NotFound,
}

/// The byte that ends a line.
pub const LINE_FEED: u8 = 10;

/// How many line feeds stand before `offset`.
pub open spec fn line_feeds_before(bytes: Seq<u8>, offset: int) -> nat
    decreases offset,
{
    if offset <= 0 {
        0
    } else {
        line_feeds_before(bytes, offset - 1) + if bytes[offset - 1] == LINE_FEED {
            1nat
        } else {
            0nat
        }
    }
}

/// Where the line that holds `offset` starts: behind the last line feed before
/// `offset`, or at the start of the text.
pub open spec fn line_start(bytes: Seq<u8>, offset: int) -> int
    decreases offset,
{
    if offset <= 0 {
        0
    } else if bytes[offset - 1] == LINE_FEED {
        offset
    } else {
        line_start(bytes, offset - 1)
    }
}

/// Where the line that holds `offset` ends: behind the first line feed at or
/// after `offset`, or at the end of the text.
pub open spec fn line_end(bytes: Seq<u8>, offset: int) -> int
    decreases bytes.len() - offset,
{
    if offset >= bytes.len() {
        bytes.len() as int
    } else if bytes[offset] == LINE_FEED {
        offset + 1
    } else {
        line_end(bytes, offset + 1)
    }
}

/// The column of the place `rel` bytes into a line, looking at the line's
/// graphemes from the `from`-th on. The first grapheme that starts at `rel`
/// gives its own number; the first that holds `rel` inside gives the number of
/// the next one.
pub open spec fn column_from(graphemes: Seq<(usize, usize)>, rel: int, from: int) -> Option<int>
    decreases graphemes.len() - from,
{
    if from < 0 || from >= graphemes.len() {
        None
    } else if rel == graphemes[from].0 {
        Some(from + 1)
    } else if graphemes[from].0 <= rel < graphemes[from].1 {
        Some(from + 2)
    } else {
        column_from(graphemes, rel, from + 1)
    }
}

/// A column found from the `from`-th grapheme on is behind `from`.
pub proof fn lemma_column_from_bounds(graphemes: Seq<(usize, usize)>, rel: int, from: int)
    requires
        0 <= from,
    ensures
        column_from(graphemes, rel, from) matches Some(col) ==> from < col <= graphemes.len() + 1,
    decreases graphemes.len() - from,
{
    if from < graphemes.len() && rel != graphemes[from].0 && !(graphemes[from].0 <= rel
        < graphemes[from].1) {
        lemma_column_from_bounds(graphemes, rel, from + 1);
    }
}

/// The position of `offset` in a text of the given bytes, where `graphemes`
/// are the spans of the graphemes of the line that holds the offset.
pub open spec fn located(bytes: Seq<u8>, offset: int, graphemes: Seq<(usize, usize)>) -> Result<
    Position,
    PositionError,
> {
    let line = line_feeds_before(bytes, offset) + 1;
    match column_from(graphemes, offset - line_start(bytes, offset), 0) {
        Some(col) => if line <= u32::MAX && col <= u32::MAX {
            Ok(Position { line: line as u32, col: col as u32 })
        } else {
            Err(PositionError::NotFound)
        },
        None => Err(PositionError::NotFound),
    }
}

/// The spans of the grapheme clusters of a line, as `bstr` cuts them: each a
/// pair of the byte offsets where the grapheme starts and where it ends.
pub uninterp spec fn grapheme_spans(line: Seq<u8>) -> Seq<(usize, usize)>;

/// The position of `offset` in a text of the given bytes: none at or beyond
/// the end of the text; else the line by the line feeds before the offset,
/// and the column by the graphemes of the offset's line.
pub open spec fn position_of(bytes: Seq<u8>, offset: int) -> Result<Position, PositionError> {
    if offset >= bytes.len() {
        Err(PositionError::OffsetOutOfRange)
    } else {
        located(
            bytes,
            offset,
            grapheme_spans(bytes.subrange(line_start(bytes, offset), line_end(bytes, offset))),
        )
    }
}

/// `bstr::ByteSlice::grapheme_indices`: the start and the end of each grapheme
/// cluster of the line, in order. The contract only names what comes back.
#[verifier::external_body]
fn line_graphemes(line: &[u8]) -> (r: Vec<(usize, usize)>)
    ensures
        r@ == grapheme_spans(line@),
{
    line.grapheme_indices().map(|(start, end, _)| (start, end)).collect()
}

/// The column of the place `rel` bytes into a line with the given graphemes.
pub fn column_in_line(graphemes: &Vec<(usize, usize)>, rel: usize) -> (r: Option<usize>)
    ensures
        match column_from(graphemes@, rel as int, 0) {
            Some(col) => if col <= usize::MAX {
                r == Some(col as usize)
            } else {
                r.is_none()
            },
            None => r.is_none(),
        },
{
    let mut j: usize = 0;
    while j < graphemes.len()
        invariant
            j <= graphemes.len(),
            column_from(graphemes@, rel as int, 0) == column_from(graphemes@, rel as int, j as int),
        decreases graphemes.len() - j,
    {
        let (start, end) = graphemes[j];
        if rel == start {
            return j.checked_add(1);
        }
        if start <= rel && rel < end {
            return j.checked_add(2);
        }
        j += 1;
    }
    None
}

/// The position of `offset` in the text `bytes`, given the graphemes of the
/// line that holds it.
pub fn position_in_line(bytes: &[u8], offset: usize, graphemes: &Vec<(usize, usize)>) -> (r: Result<
    Position,
    PositionError,
>)
    requires
        offset < bytes@.len(),
    ensures
        r == located(bytes@, offset as int, graphemes@),
        r matches Ok(p) ==> p.wf(),
{
    let mut feeds: usize = 0;
    let mut start: usize = 0;
    let mut i: usize = 0;
    while i < offset
        invariant
            i <= offset < bytes@.len(),
            feeds == line_feeds_before(bytes@, i as int),
            feeds <= i,
            start == line_start(bytes@, i as int),
            start <= i,
        decreases offset - i,
    {
        if bytes[i] == LINE_FEED {
            feeds += 1;
            start = i + 1;
        }
        i += 1;
    }
    let col = column_in_line(graphemes, offset - start);
    proof {
        lemma_column_from_bounds(graphemes@, offset - start, 0);
    }
    match col {
        Some(c) => {
            if feeds < 0xffff_ffff && c <= 0xffff_ffff {
                Ok(Position { line: (feeds + 1) as u32, col: c as u32 })
            } else {
                Err(PositionError::NotFound)
            }
        },
        None => Err(PositionError::NotFound),
    }
}

/// Where the line that holds `offset` starts and ends.
pub fn line_span(bytes: &[u8], offset: usize) -> (r: (usize, usize))
    requires
        offset < bytes@.len(),
    ensures
        r.0 == line_start(bytes@, offset as int),
        r.1 == line_end(bytes@, offset as int),
        r.0 <= offset < r.1 <= bytes@.len(),
{
    let mut start: usize = offset;
    while start > 0 && bytes[start - 1] != LINE_FEED
        invariant
            start <= offset < bytes@.len(),
            line_start(bytes@, offset as int) == line_start(bytes@, start as int),
        decreases start,
    {
        start -= 1;
    }
    let mut end: usize = offset;
    while end < bytes.len() && bytes[end] != LINE_FEED
        invariant
            offset <= end <= bytes@.len(),
            line_end(bytes@, offset as int) == line_end(bytes@, end as int),
        decreases bytes@.len() - end,
    {
        end += 1;
    }
    if end < bytes.len() {
        end += 1;
    }
    (start, end)
}

/// The position of the byte offset `offset` in `content`.
///
/// An offset at or beyond the end of the text has none. The line is one more
/// than the line feeds before the offset. The column counts the graphemes of
/// the line, as [`located`] says, over the graphemes that [`grapheme_spans`]
/// names for the line: [`position_of`] puts the three together.
pub fn get_position_in_string(content: &str, offset: usize) -> (r: Result<Position, PositionError>)
    ensures
        r == position_of(content.spec_bytes(), offset as int),
        r matches Ok(p) ==> p.wf(),
{
    let bytes = content.as_bytes();
    if offset >= bytes.len() {
        return Err(PositionError::OffsetOutOfRange);
    }
    let (start, end) = line_span(bytes, offset);
    let line = slice_subrange(bytes, start, end);
    let graphemes = line_graphemes(line);
    position_in_line(bytes, offset, &graphemes)
}

} // verus!
