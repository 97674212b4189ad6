//! The framebuffer: the panel's pixels in memory, and text drawn into them.
//!
//! The buffer itself is the panel driver crate's `Display2in9`, turned a
//! quarter to the right so that the long edge of the panel is the width of a
//! line. Glyphs are drawn by `embedded_graphics`; which bits a text sets and
//! clears is that crate's font and renderer, and is not restated here.

use vstd::prelude::*;
use vstd::string::StringSliceAdditionalSpecFns;
use vstd::utf8::{decode_utf8, encode_utf8_decode_utf8};
use embedded_graphics::mono_font::iso_8859_1::{FONT_10X20, FONT_9X18};
use embedded_graphics::mono_font::MonoTextStyleBuilder;
use embedded_graphics::pixelcolor::BinaryColor;
use embedded_graphics::prelude::{Drawable, Point};
use embedded_graphics::text::{Baseline, Text, TextStyleBuilder};
use epd_waveshare::epd2in9_v2::Display2in9;
use epd_waveshare::graphics::{Display, DisplayRotation};
use crate::layout::{layout, layout_of, FontStyle, LineRecord, PlacedLine};
use crate::payload::{TextPayload, MAX_TEXT_BUFFER_SIZE};

verus! {

/// Number of bytes in the framebuffer: 128 by 296 pixels, eight to a byte.
pub const FRAME_BYTES: usize = 4736;

/// The byte of eight background pixels.
pub const BACKGROUND_BYTE: u8 = 0xFF;

/// Largest coordinate at which text is drawn. Up to here, and for texts that
/// fit the input buffer, the renderer's position arithmetic stays far from
/// the ends of `i32`.
pub const COORDINATE_LIMIT: i32 = 65_535;

/// `epd_waveshare`'s display buffer for the 2.9" panel: 128 by 296 pixels
/// and a rotation. What it holds is spoken of through `display_bytes` and
/// `display_quarter_turns`.
#[verifier::external_type_specification]
#[verifier::external_body]
pub struct ExDisplay2in9(Display2in9);

/// The bytes of a display's buffer, in the order in which they go to the panel.
pub uninterp spec fn display_bytes(display: Display2in9) -> Seq<u8>;

/// The rotation of a display, in quarter turns to the right.
pub uninterp spec fn display_quarter_turns(display: Display2in9) -> int;

/// The buffer after `text` was drawn into `before` in the primary font, with
/// the top left corner of its first glyph at (`x`, `y`).
pub uninterp spec fn primary_text_drawn(
    before: Seq<u8>,
    quarter_turns: int,
    text: Seq<char>,
    x: int,
    y: int,
) -> Seq<u8>;

/// The buffer after `text` was drawn into `before` in the secondary font,
/// with the top left corner of its first glyph at (`x`, `y`).
pub uninterp spec fn secondary_text_drawn(
    before: Seq<u8>,
    quarter_turns: int,
    text: Seq<char>,
    x: int,
    y: int,
) -> Seq<u8>;

/// A framebuffer in which every pixel is background.
pub open spec fn blank_frame() -> Seq<u8> {
    Seq::new(FRAME_BYTES as nat, |i: int| BACKGROUND_BYTE)
}

/// Makes a display with `Display2in9::default()`.
///
/// Trusted: the new display is not rotated, and its buffer is `FRAME_BYTES`
/// bytes of background.
#[verifier::external_body]
fn default_display() -> (display: Display2in9)
    ensures
        display_bytes(display) == blank_frame(),
        display_quarter_turns(display) == 0,
{
    Display2in9::default()
}

/// Turns a display a quarter to the right with `Display::set_rotation`.
///
/// Trusted: the call sets the rotation and leaves the buffer as it is.
#[verifier::external_body]
fn turn_display_right(display: &mut Display2in9)
    ensures
        display_bytes(*final(display)) == display_bytes(*old(display)),
        display_quarter_turns(*final(display)) == 1,
{
    display.set_rotation(DisplayRotation::Rotate90);
}

/// Borrows a display's buffer with `Display::buffer`.
///
/// Trusted: the slice is the display's buffer, which has `FRAME_BYTES` bytes.
#[verifier::external_body]
fn display_buffer(display: &Display2in9) -> (bytes: &[u8])
    ensures
        bytes@ == display_bytes(*display),
        bytes@.len() == FRAME_BYTES,
{
    display.buffer()
}

/// Draws `text` in the 10x20 font, dark on background, with
/// `embedded_graphics`' `Text::draw`.
///
/// Trusted: the buffer afterwards depends on the buffer before, the
/// display's rotation, the text and the position, and on nothing else; its
/// length and the rotation stay. Positions and texts beyond the stated bounds
/// are left out because the renderer adds glyph widths to the position in
/// `i32`.
#[verifier::external_body]
fn draw_text_primary(display: &mut Display2in9, text: &str, x: i32, y: i32)
    requires
        text.spec_bytes().len() <= MAX_TEXT_BUFFER_SIZE,
        0 <= x <= COORDINATE_LIMIT,
        0 <= y <= COORDINATE_LIMIT,
    ensures
        display_bytes(*final(display)) == primary_text_drawn(
            display_bytes(*old(display)),
            display_quarter_turns(*old(display)),
            text@,
            x as int,
            y as int,
        ),
        display_bytes(*final(display)).len() == display_bytes(*old(display)).len(),
        display_quarter_turns(*final(display)) == display_quarter_turns(*old(display)),
    no_unwind
{
    let style = MonoTextStyleBuilder::new()
        .font(&FONT_10X20)
        .background_color(BinaryColor::Off)
        .text_color(BinaryColor::On)
        .build();
    let text_style = TextStyleBuilder::new().baseline(Baseline::Top).build();
    let _ = Text::with_text_style(text, Point::new(x, y), style, text_style).draw(display);
}

/// Draws `text` in the 9x18 font, dark on background, with
/// `embedded_graphics`' `Text::draw`.
///
/// Trusted: the buffer afterwards depends on the buffer before, the
/// display's rotation, the text and the position, and on nothing else; its
/// length and the rotation stay. Positions and texts beyond the stated bounds
/// are left out because the renderer adds glyph widths to the position in
/// `i32`.
#[verifier::external_body]
fn draw_text_secondary(display: &mut Display2in9, text: &str, x: i32, y: i32)
    requires
        text.spec_bytes().len() <= MAX_TEXT_BUFFER_SIZE,
        0 <= x <= COORDINATE_LIMIT,
        0 <= y <= COORDINATE_LIMIT,
    ensures
        display_bytes(*final(display)) == secondary_text_drawn(
            display_bytes(*old(display)),
            display_quarter_turns(*old(display)),
            text@,
            x as int,
            y as int,
        ),
        display_bytes(*final(display)).len() == display_bytes(*old(display)).len(),
        display_quarter_turns(*final(display)) == display_quarter_turns(*old(display)),
    no_unwind
{
    let style = MonoTextStyleBuilder::new()
        .font(&FONT_9X18)
        .background_color(BinaryColor::Off)
        .text_color(BinaryColor::On)
        .build();
    let text_style = TextStyleBuilder::new().baseline(Baseline::Top).build();
    let _ = Text::with_text_style(text, Point::new(x, y), style, text_style).draw(display);
}

/// The buffer after one placed line was drawn into `before`.
pub open spec fn line_drawn(before: Seq<u8>, line: PlacedLine) -> Seq<u8> {
    match line.style {
        FontStyle::Primary => primary_text_drawn(before, 1, decode_utf8(line.text), line.x, line.y),
        FontStyle::Secondary => secondary_text_drawn(
            before,
            1,
            decode_utf8(line.text),
            line.x,
            line.y,
        ),
    }
}

/// The buffer after the given lines were drawn into `before`, one after the
/// other. Nothing is cleared first: what no glyph covers stays as it was.
pub open spec fn rendered(before: Seq<u8>, lines: Seq<PlacedLine>) -> Seq<u8>
    decreases lines.len(),
{
    if lines.len() == 0 {
        before
    } else {
        line_drawn(rendered(before, lines.drop_last()), lines.last())
    }
}

/// Rendering is repeatable: the same payload, rendered into two
/// framebuffers that were both just made, gives the same pixels in both.
pub proof fn lemma_render_is_repeatable(first: Seq<u8>, second: Seq<u8>, payload: Seq<u8>)
    requires
        first == blank_frame(),
        second == blank_frame(),
    ensures
        rendered(first, layout_of(payload)) == rendered(second, layout_of(payload)),
{
}

/// Lines are drawn in order, each over what the ones before it left:
/// rendering a layout is rendering all but its last line and then drawing
/// the last; rendering no line changes nothing.
pub proof fn lemma_render_draws_in_order(before: Seq<u8>, lines: Seq<PlacedLine>, line: PlacedLine)
    ensures
        rendered(before, Seq::<PlacedLine>::empty()) == before,
        rendered(before, lines.push(line)) == line_drawn(rendered(before, lines), line),
{
    assert(lines.push(line).drop_last() =~= lines);
}

/// The panel's pixels in memory.
pub struct Framebuffer {
    display: Display2in9,
}

impl View for Framebuffer {
    type V = Seq<u8>;

    /// The buffer's bytes, in the order in which they go to the panel.
    closed spec fn view(&self) -> Seq<u8> {
        display_bytes(self.display)
    }
}

impl Framebuffer {
    #[verifier::type_invariant]
    spec fn turned_right(self) -> bool {
        display_quarter_turns(self.display) == 1 && display_bytes(self.display).len()
            == FRAME_BYTES
    }

    /// A framebuffer in which every pixel is background.
    pub fn new() -> (frame: Framebuffer)
        ensures
            frame@ == blank_frame(),
    {
        let mut display = default_display();
        turn_display_right(&mut display);
        Framebuffer { display }
    }

    /// The buffer's bytes, as they are sent to the panel.
    pub fn bytes(&self) -> (bytes: &[u8])
        ensures
            bytes@ == self@,
            bytes@.len() == FRAME_BYTES,
    {
        display_buffer(&self.display)
    }

    /// Draws one line.
    fn draw(&mut self, record: &LineRecord)
        requires
            record@.text.len() <= MAX_TEXT_BUFFER_SIZE,
            0 <= record@.x <= COORDINATE_LIMIT,
            0 <= record@.y <= COORDINATE_LIMIT,
        ensures
            final(self)@ == line_drawn(old(self)@, record@),
    {
        proof {
            use_type_invariant(&*self);
            encode_utf8_decode_utf8(record.text@);
        }
        match record.style {
            FontStyle::Primary => draw_text_primary(
                &mut self.display,
                record.text,
                record.x,
                record.y,
            ),
            FontStyle::Secondary => draw_text_secondary(
                &mut self.display,
                record.text,
                record.x,
                record.y,
            ),
        }
    }

    /// Lays the payload out and draws its lines, first to last, over what
    /// the buffer holds.
    pub fn render(&mut self, payload: &TextPayload)
        ensures
            final(self)@ == rendered(old(self)@, layout_of(payload@)),
    {
        let records = layout(payload);
        let ghost before = self@;
        let ghost lines = layout_of(payload@);
        let mut i: usize = 0;
        while i < records.len()
            invariant
                i <= records@.len(),
                records@.len() == lines.len(),
                lines.len() <= MAX_TEXT_BUFFER_SIZE,
                lines == layout_of(payload@),
                forall|k: int|
                    0 <= k < records@.len() ==> (#[trigger] records@[k])@.text.len()
                        <= MAX_TEXT_BUFFER_SIZE,
                forall|k: int| 0 <= k < records@.len() ==> (#[trigger] records@[k])@ == lines[k],
                self@ == rendered(before, lines.take(i as int)),
            decreases records@.len() - i,
        {
            assert(lines.take(i + 1).drop_last() =~= lines.take(i as int));
            self.draw(&records[i]);
            i = i + 1;
        }
        assert(lines.take(i as int) =~= lines);
    }
}

} // verus!
