//! Text layout: splitting a payload into lines and placing each line.
//!
//! The first line of a payload is the title: it is set in the primary font
//! at the top margin. Every further line is set in the secondary font, one
//! line pitch below the one before it.

use vstd::prelude::*;
use vstd::string::StringSliceAdditionalSpecFns;
use vstd::utf8::{
    encode_utf8_valid_utf8, is_char_boundary, is_char_boundary_iff_not_is_continuation_byte,
    is_char_boundary_start_end_of_seq, valid_utf8, valid_utf8_split,
};
use crate::payload::{TextPayload, MAX_TEXT_BUFFER_SIZE};

verus! {

/// The byte that ends a line.
pub const LINE_FEED: u8 = 0x0A;

/// The byte that, directly before a line feed, belongs to the line ending.
pub const CARRIAGE_RETURN: u8 = 0x0D;

/// Horizontal position of every line, in pixels from the left edge.
pub const LEFT_MARGIN: i32 = 5;

/// Vertical position of the first line, in pixels from the top edge.
pub const TOP_MARGIN: i32 = 5;

/// Vertical distance from the first line to the second.
pub const LINE0_GAP: i32 = 20;

/// Vertical distance between two lines after the first.
pub const SECONDARY_PITCH: i32 = 20;

/// The font a line is set in.
#[derive(Clone, Copy, Debug, PartialEq, Eq, Structural)]
pub enum FontStyle {
    /// The larger font, for the first line of a payload.
    Primary,
    /// The smaller font, for every other line.
    Secondary,
}

/// One line of a payload, placed on the display.
#[derive(Clone, Copy, Debug, PartialEq, Eq)]
pub struct LineRecord<'a> {
    /// The line's text, without its line ending.
    pub text: &'a str,
    /// The font the line is set in.
    pub style: FontStyle,
    /// Left edge of the line.
    pub x: i32,
    /// Top edge of the line.
    pub y: i32,
}

/// What a line record stands for: the bytes of its text, its font and its position.
pub struct PlacedLine {
    /// The bytes of the line's text.
    pub text: Seq<u8>,
    /// The font the line is set in.
    pub style: FontStyle,
    /// Left edge of the line.
    pub x: int,
    /// Top edge of the line.
    pub y: int,
}

impl<'a> View for LineRecord<'a> {
    type V = PlacedLine;

    open spec fn view(&self) -> PlacedLine {
        PlacedLine {
            text: self.text.spec_bytes(),
            style: self.style,
            x: self.x as int,
            y: self.y as int,
        }
    }
}

/// Index of the first line feed at or after `from`, or the length of `bytes`
/// if there is none.
pub open spec fn line_stop(bytes: Seq<u8>, from: int) -> int
    decreases bytes.len() - from,
{
    if from >= bytes.len() {
        bytes.len() as int
    } else if bytes[from] == LINE_FEED {
        from
    } else {
        line_stop(bytes, from + 1)
    }
}

/// Where the text of a line ends, when the line starts at `start` and its
/// line feed, or the end of the input, is at `stop`. A carriage return
/// directly before the line feed is part of the line ending; one at the
/// end of the input is part of the text.
pub open spec fn text_end(bytes: Seq<u8>, start: int, stop: int) -> int {
    if start < stop && stop < bytes.len() && bytes[stop - 1] == CARRIAGE_RETURN {
        stop - 1
    } else {
        stop
    }
}

/// The lines of `bytes` that start at or after `from`, each as the pair of
/// the index where its text starts and the index where it ends. A line
/// feed ends a line; the last line needs none.
pub open spec fn line_spans(bytes: Seq<u8>, from: int) -> Seq<(int, int)>
    decreases bytes.len() + 1 - from,
    via line_spans_decreases
{
    if from < 0 || from >= bytes.len() {
        Seq::empty()
    } else {
        let stop = line_stop(bytes, from);
        seq![(from, text_end(bytes, from, stop))] + line_spans(bytes, stop + 1)
    }
}

#[via_fn]
proof fn line_spans_decreases(bytes: Seq<u8>, from: int) {
    if 0 <= from < bytes.len() {
        lemma_line_stop_bounds(bytes, from);
    }
}

/// A line stops at or after its start, within the input, and at a line
/// feed unless the input ends first; no line feed lies before the stop.
pub proof fn lemma_line_stop_bounds(bytes: Seq<u8>, from: int)
    requires
        0 <= from <= bytes.len(),
    ensures
        from <= line_stop(bytes, from) <= bytes.len(),
        line_stop(bytes, from) < bytes.len() ==> bytes[line_stop(bytes, from)] == LINE_FEED,
        forall|k: int| from <= k < line_stop(bytes, from) ==> bytes[k] != LINE_FEED,
    decreases bytes.len() - from,
{
    if from < bytes.len() && bytes[from] != LINE_FEED {
        lemma_line_stop_bounds(bytes, from + 1);
    }
}

/// The texts of the lines of a payload. A payload without any byte has one
/// line, which is empty.
pub open spec fn payload_lines(bytes: Seq<u8>) -> Seq<Seq<u8>> {
    if bytes.len() == 0 {
        seq![Seq::<u8>::empty()]
    } else {
        line_spans(bytes, 0).map_values(|span: (int, int)| bytes.subrange(span.0, span.1))
    }
}

/// The font of the line with index `i`.
pub open spec fn style_at(i: int) -> FontStyle {
    if i == 0 {
        FontStyle::Primary
    } else {
        FontStyle::Secondary
    }
}

/// The top edge of the line with index `i`.
pub open spec fn baseline_at(i: int) -> int {
    if i == 0 {
        TOP_MARGIN as int
    } else {
        TOP_MARGIN + LINE0_GAP + (i - 1) * SECONDARY_PITCH
    }
}

/// The line with index `i` and the given text, placed.
pub open spec fn placed(i: int, text: Seq<u8>) -> PlacedLine {
    PlacedLine { text, style: style_at(i), x: LEFT_MARGIN as int, y: baseline_at(i) }
}

/// The layout of a payload: its lines in order, each placed by its index.
pub open spec fn layout_of(bytes: Seq<u8>) -> Seq<PlacedLine> {
    let lines = payload_lines(bytes);
    Seq::new(lines.len(), |i: int| placed(i, lines[i]))
}

/// The lines found from `from` on lie within the input, each ending no
/// earlier than it starts, and there are no more of them than bytes left.
pub proof fn lemma_line_spans_bounds(bytes: Seq<u8>, from: int)
    requires
        0 <= from,
    ensures
        from < bytes.len() ==> 1 <= line_spans(bytes, from).len() <= bytes.len() - from,
        from >= bytes.len() ==> line_spans(bytes, from).len() == 0,
        forall|i: int|
            0 <= i < line_spans(bytes, from).len() ==> from <= (#[trigger] line_spans(
                bytes,
                from,
            )[i]).0 <= line_spans(bytes, from)[i].1 <= bytes.len(),
    decreases bytes.len() + 1 - from,
{
    if from < bytes.len() {
        lemma_line_stop_bounds(bytes, from);
        let stop = line_stop(bytes, from);
        lemma_line_spans_bounds(bytes, stop + 1);
        let rest = line_spans(bytes, stop + 1);
        let all = line_spans(bytes, from);
        assert(all =~= seq![(from, text_end(bytes, from, stop))] + rest);
        assert forall|i: int| 0 <= i < all.len() implies from <= (#[trigger] all[i]).0 <= all[i].1
            <= bytes.len() by {
            if i > 0 {
                assert(all[i] == rest[i - 1]);
            }
        }
    }
}

/// No line feed lies within a line found from `from` on.
pub proof fn lemma_line_spans_hold_no_line_feed(bytes: Seq<u8>, from: int)
    requires
        0 <= from,
    ensures
        forall|i: int, k: int|
            0 <= i < line_spans(bytes, from).len() && (#[trigger] line_spans(bytes, from)[i]).0 <= k
                < line_spans(bytes, from)[i].1 ==> #[trigger] bytes[k] != LINE_FEED,
    decreases bytes.len() + 1 - from,
{
    if from < bytes.len() {
        lemma_line_stop_bounds(bytes, from);
        let stop = line_stop(bytes, from);
        lemma_line_spans_hold_no_line_feed(bytes, stop + 1);
        let rest = line_spans(bytes, stop + 1);
        let all = line_spans(bytes, from);
        assert(all =~= seq![(from, text_end(bytes, from, stop))] + rest);
        assert forall|i: int, k: int|
            0 <= i < all.len() && (#[trigger] all[i]).0 <= k < all[i].1 implies #[trigger] bytes[k]
            != LINE_FEED by {
            if i > 0 {
                assert(all[i] == rest[i - 1]);
            }
        }
    }
}

/// The lines of a payload are free of line feeds: every line feed of the
/// payload ended a line.
pub proof fn lemma_lines_hold_no_line_feed(bytes: Seq<u8>)
    ensures
        forall|i: int, j: int|
            0 <= i < payload_lines(bytes).len() && 0 <= j < (#[trigger] payload_lines(
                bytes,
            )[i]).len() ==> #[trigger] payload_lines(bytes)[i][j] != LINE_FEED,
{
    lemma_line_spans_bounds(bytes, 0);
    lemma_line_spans_hold_no_line_feed(bytes, 0);
    let spans = line_spans(bytes, 0);
    let lines = payload_lines(bytes);
    assert forall|i: int, j: int|
        0 <= i < lines.len() && 0 <= j < (#[trigger] lines[i]).len() implies #[trigger] lines[i][j]
        != LINE_FEED by {
        if bytes.len() > 0 {
            assert(lines[i] == bytes.subrange(spans[i].0, spans[i].1));
            assert(lines[i][j] == bytes[spans[i].0 + j]);
        }
    }
}

/// Whether the bytes from `end` up to `next` are a line ending: a line
/// feed, alone or with a carriage return before it.
pub open spec fn is_line_ending(bytes: Seq<u8>, end: int, next: int) -> bool {
    ||| next == end + 1 && bytes[end] == LINE_FEED
    ||| next == end + 2 && bytes[end] == CARRIAGE_RETURN && bytes[end + 1] == LINE_FEED
}

/// Nothing is lost between the lines: the first line found from `from` on
/// starts at `from`, each further line starts right after the line ending
/// of the one before it, and after the last line comes its line ending or
/// the end of the input.
pub proof fn lemma_line_spans_tile_the_input(bytes: Seq<u8>, from: int)
    requires
        0 <= from < bytes.len(),
    ensures
        line_spans(bytes, from)[0].0 == from,
        forall|i: int|
            0 <= i < line_spans(bytes, from).len() - 1 ==> is_line_ending(
                bytes,
                (#[trigger] line_spans(bytes, from)[i]).1,
                line_spans(bytes, from)[i + 1].0,
            ),
        line_spans(bytes, from).last().1 == bytes.len() || is_line_ending(
            bytes,
            line_spans(bytes, from).last().1,
            bytes.len() as int,
        ),
    decreases bytes.len() - from,
{
    lemma_line_stop_bounds(bytes, from);
    let stop = line_stop(bytes, from);
    let rest = line_spans(bytes, stop + 1);
    let all = line_spans(bytes, from);
    assert(all =~= seq![(from, text_end(bytes, from, stop))] + rest);
    lemma_line_spans_bounds(bytes, stop + 1);
    if stop + 1 < bytes.len() {
        lemma_line_spans_tile_the_input(bytes, stop + 1);
        assert(all.last() == rest.last());
        assert forall|i: int| 0 <= i < all.len() - 1 implies is_line_ending(
            bytes,
            (#[trigger] all[i]).1,
            all[i + 1].0,
        ) by {
            assert(all[i + 1] == rest[i]);
            if i > 0 {
                assert(all[i] == rest[i - 1]);
            }
        }
    }
}

/// A layout has at least one line and, unless the payload has no byte, no
/// more lines than the payload has bytes; no line is longer than the payload.
pub proof fn lemma_layout_bounds(bytes: Seq<u8>)
    ensures
        1 <= layout_of(bytes).len(),
        bytes.len() > 0 ==> layout_of(bytes).len() <= bytes.len(),
        forall|i: int|
            0 <= i < layout_of(bytes).len() ==> (#[trigger] layout_of(bytes)[i]).text.len()
                <= bytes.len(),
{
    lemma_line_spans_bounds(bytes, 0);
}

/// In well-formed UTF-8, a byte below 0x80 is a character of its own: a
/// character starts at it and another one, or the end, right after it.
proof fn lemma_boundaries_at_ascii(bytes: Seq<u8>, i: int)
    requires
        valid_utf8(bytes),
        0 <= i < bytes.len(),
        bytes[i] < 0x80,
    ensures
        is_char_boundary(bytes, i),
        is_char_boundary(bytes, i + 1),
{
    is_char_boundary_iff_not_is_continuation_byte(bytes, i);
    valid_utf8_split(bytes, i);
    let tail = bytes.subrange(i, bytes.len() as int);
    assert(tail[0] == bytes[i]);
    let rest = bytes.subrange(i + 1, bytes.len() as int);
    assert(rest =~= tail.subrange(1, tail.len() as int));
    assert(valid_utf8(rest));
    if i + 1 < bytes.len() {
        is_char_boundary_iff_not_is_continuation_byte(rest, 0);
        assert(rest[0] == bytes[i + 1]);
        is_char_boundary_iff_not_is_continuation_byte(bytes, i + 1);
    } else {
        is_char_boundary_start_end_of_seq(bytes);
    }
}

/// The part of `text` between two character boundaries.
fn subtext<'a>(text: &'a str, start: usize, end: usize) -> (part: &'a str)
    requires
        start <= end <= text.spec_bytes().len(),
        is_char_boundary(text.spec_bytes(), start as int),
        is_char_boundary(text.spec_bytes(), end as int),
    ensures
        part.spec_bytes() == text.spec_bytes().subrange(start as int, end as int),
{
    let ghost bytes = text.spec_bytes();
    let (head, _) = text.split_at(end);
    proof {
        encode_utf8_valid_utf8(text@);
        valid_utf8_split(bytes, end as int);
        let kept = bytes.subrange(0, end as int);
        assert(head.spec_bytes() == kept);
        if start < end {
            is_char_boundary_iff_not_is_continuation_byte(bytes, start as int);
            assert(kept[start as int] == bytes[start as int]);
            is_char_boundary_iff_not_is_continuation_byte(kept, start as int);
        } else {
            is_char_boundary_start_end_of_seq(kept);
        }
    }
    let (_, part) = head.split_at(start);
    assert(part.spec_bytes() =~= bytes.subrange(start as int, end as int));
    part
}

/// Index of the first line feed at or after `from`, or the length of
/// `bytes` if there is none.
fn find_line_stop(bytes: &[u8], from: usize) -> (stop: usize)
    requires
        from <= bytes@.len(),
    ensures
        stop == line_stop(bytes@, from as int),
        from <= stop <= bytes@.len(),
{
    let mut stop: usize = from;
    while stop < bytes.len() && bytes[stop] != LINE_FEED
        invariant
            from <= stop <= bytes@.len(),
            line_stop(bytes@, from as int) == line_stop(bytes@, stop as int),
        decreases bytes@.len() - stop,
    {
        stop = stop + 1;
    }
    stop
}

/// Lays a payload out: one record for each of its lines, in order. The
/// first line is set in the primary font at the top margin; every further
/// line is set in the secondary font, `LINE0_GAP` below the first and
/// `SECONDARY_PITCH` below the one before it. All lines start at the left
/// margin. A payload without any byte gives one empty line.
pub fn layout<'a>(payload: &'a TextPayload) -> (records: Vec<LineRecord<'a>>)
    ensures
        records@.len() == layout_of(payload@).len(),
        forall|i: int| 0 <= i < records@.len() ==> (#[trigger] records@[i])@ == layout_of(payload@)[i],
        records@.len() >= 1,
        records@[0].style == FontStyle::Primary,
        records@[0].y == TOP_MARGIN,
        forall|i: int|
            1 <= i < records@.len() ==> (#[trigger] records@[i]).style == FontStyle::Secondary
                && records@[i].y == TOP_MARGIN + LINE0_GAP + (i - 1) * SECONDARY_PITCH,
        forall|i: int| 0 <= i < records@.len() ==> (#[trigger] records@[i]).x == LEFT_MARGIN,
        payload@.len() == 0 ==> records@.len() == 1 && records@[0]@.text == Seq::<u8>::empty(),
        records@.len() <= MAX_TEXT_BUFFER_SIZE,
        forall|i: int|
            0 <= i < records@.len() ==> (#[trigger] records@[i])@.text.len()
                <= MAX_TEXT_BUFFER_SIZE,
{
    let text: &'a str = payload.as_str();
    proof {
        lemma_layout_bounds(payload@);
    }
    let bytes: &[u8] = text.as_bytes();
    let n: usize = bytes.len();
    let mut records: Vec<LineRecord<'a>> = Vec::new();
    if n == 0 {
        records.push(LineRecord { text, style: FontStyle::Primary, x: LEFT_MARGIN, y: TOP_MARGIN });
        return records;
    }
    proof {
        encode_utf8_valid_utf8(text@);
    }
    let ghost mut seen: Seq<(int, int)> = Seq::empty();
    let mut start: usize = 0;
    while start < n
        invariant
            n == bytes@.len(),
            0 < n <= MAX_TEXT_BUFFER_SIZE,
            bytes@ == text.spec_bytes(),
            valid_utf8(bytes@),
            start <= n + 1,
            records@.len() == seen.len(),
            records@.len() <= start,
            start == 0 <==> records@.len() == 0,
            0 < start <= n ==> bytes@[start - 1] == LINE_FEED,
            line_spans(bytes@, 0) =~= seen + line_spans(bytes@, start as int),
            forall|i: int|
                0 <= i < records@.len() ==> (#[trigger] records@[i])@ == placed(
                    i,
                    bytes@.subrange(seen[i].0, seen[i].1),
                ),
        decreases n + 1 - start,
    {
        let stop: usize = find_line_stop(bytes, start);
        proof {
            lemma_line_stop_bounds(bytes@, start as int);
        }
        let end: usize = if start < stop && stop < n && bytes[stop - 1] == CARRIAGE_RETURN {
            stop - 1
        } else {
            stop
        };
        proof {
            if start > 0 {
                lemma_boundaries_at_ascii(bytes@, start - 1);
            } else {
                is_char_boundary_start_end_of_seq(bytes@);
            }
            if end < n {
                lemma_boundaries_at_ascii(bytes@, end as int);
            } else {
                is_char_boundary_start_end_of_seq(bytes@);
            }
        }
        let line: &'a str = subtext(text, start, end);
        let index: usize = records.len();
        let record = if index == 0 {
            LineRecord { text: line, style: FontStyle::Primary, x: LEFT_MARGIN, y: TOP_MARGIN }
        } else {
            let below: i32 = (index - 1) as i32;
            LineRecord {
                text: line,
                style: FontStyle::Secondary,
                x: LEFT_MARGIN,
                y: TOP_MARGIN + LINE0_GAP + below * SECONDARY_PITCH,
            }
        };
        proof {
            let span = (start as int, end as int);
            assert(line_spans(bytes@, start as int) =~= seq![span] + line_spans(bytes@, stop + 1));
            seen = seen.push(span);
        }
        records.push(record);
        start = stop + 1;
    }
    proof {
        assert(line_spans(bytes@, start as int) =~= Seq::<(int, int)>::empty());
        assert(line_spans(bytes@, 0) =~= seen);
        let lines = payload_lines(payload@);
        assert(lines.len() == seen.len());
        assert forall|i: int| 0 <= i < records@.len() implies (#[trigger] records@[i])@ == layout_of(
            payload@,
        )[i] by {
            assert(lines[i] == bytes@.subrange(seen[i].0, seen[i].1));
        }
    }
    records
}

} // verus!
