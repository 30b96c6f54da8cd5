//! Text sections: text laid out line by line inside an area.
//!
//! A text section decides what a PDF backend writes into the text object of
//! its layer; each call appends those operations, in order, to a list that
//! the caller hands in and then carries out.

use vstd::prelude::*;

use crate::error::{Error, ErrorKind};
use crate::geometry::{fits, in_range, Mm, Position};
use crate::render::{to_page, to_page_fits, Area};
use crate::style::{Color, Metrics};

verus! {

/// An operation on the text object of a layer.
#[derive(Clone, Debug, PartialEq)]
pub enum TextOp {
    /// Opens a text object.
    BeginTextSection,
    /// Sets the distance between baselines.
    SetLineHeight(Mm),
    /// Moves the text cursor to a position relative to the lower left corner of the page.
    SetTextCursor(Position),
    /// Moves the text cursor to the start of the next line.
    AddLineBreak,
    /// Sets the colour in which text is filled.
    SetFillColor(Color),
    /// Selects a font of the document at a size in points.
    SetFont { font: usize, size: u8 },
    /// Writes glyphs, each with its kerning adjustment in thousandths of an em.
    WritePositionedCodepoints(Vec<(i64, u16)>),
    /// Closes the text object.
    EndTextSection,
}

/// The font and colour in which a string is printed.
#[derive(Clone, Copy, Debug, PartialEq, Eq, Structural)]
pub struct TextStyle {
    /// The document's font to select.
    pub font: usize,
    /// Whether the font is one of the built-in PDF fonts, which are written
    /// in the Windows-1252 encoding.
    pub builtin: bool,
    /// The font size in points.
    pub font_size: u8,
    /// The fill colour, if the text is not to be printed in the default colour.
    pub color: Option<Color>,
}

/// What the font tells of a string: the left side bearing of its first
/// character, the kerning adjustment of each character in thousandths of an
/// em, and, for embedded fonts, the glyph of each character.
#[derive(Clone, Debug, PartialEq, Eq)]
pub struct ShapedText {
    pub first_left_bearing: Mm,
    pub kerning: Vec<i64>,
    pub glyph_ids: Vec<u16>,
}

/// The black in which text is printed by default.
pub open spec fn black() -> Color {
    Color::Rgb(0, 0, 0)
}

/// The pairs of the two sequences, as far as the shorter one goes.
pub open spec fn zip(a: Seq<i64>, b: Seq<u16>) -> Seq<(i64, u16)> {
    Seq::new(if a.len() <= b.len() { a.len() } else { b.len() }, |i: int| (a[i], b[i]))
}

/// The error message for a string that the Windows-1252 encoding cannot hold.
pub open spec fn unsupported_encoding_message(s: Seq<char>) -> Seq<char> {
    "Tried to print a string with characters that are not supported by the Windows-1252 encoding with a built-in font: "@
        + s
}

/// Names what `lopdf::Document::encode_text` returns for the named encoding and a text.
pub uninterp spec fn lopdf_encode_text(encoding: Seq<char>, text: Seq<char>) -> Seq<u8>;

/// Calls `lopdf::Document::encode_text` with the named encoding.  Trusted: the
/// result is `lopdf_encode_text` of the encoding's name and the text; nothing
/// more is claimed of it (for the single-byte encodings lopdf drops the
/// characters that the encoding lacks).
#[verifier::external_body]
fn encode_text(encoding: &str, text: &str) -> (bytes: Vec<u8>)
    ensures
        bytes@ == lopdf_encode_text(encoding@, text@),
{
    lopdf::Document::encode_text(Some(encoding), text)
}

/// The bytes as 16-bit code points.
pub open spec fn widen(bytes: Seq<u8>) -> Seq<u16> {
    bytes.map_values(|b: u8| b as u16)
}

/// Checks the Windows-1252 encoding `bytes` of `s`: a single-byte encoding
/// gives one byte per character, so the encoding is complete exactly when
/// there are as many bytes as characters.  Returns the bytes as code points,
/// or an error of kind `UnsupportedEncoding` that names `s`.
pub fn win1252_codepoints(s: &str, bytes: Vec<u8>) -> (r: Result<Vec<u16>, Error>)
    ensures
        match r {
            Ok(codepoints) => bytes@.len() == s@.len() && codepoints@ == widen(bytes@),
            Err(e) => {
                &&& bytes@.len() != s@.len()
                &&& e.kind == ErrorKind::UnsupportedEncoding
                &&& e.msg@ == unsupported_encoding_message(s@)
            },
        },
{
    let mut codepoints: Vec<u16> = Vec::new();
    let mut i: usize = 0;
    while i < bytes.len()
        invariant
            i <= bytes@.len(),
            codepoints@ == widen(bytes@.take(i as int)),
        decreases bytes@.len() - i,
    {
        codepoints.push(bytes[i] as u16);
        assert(widen(bytes@.take(i + 1)) =~= widen(bytes@.take(i as int)).push(bytes@[i as int] as u16));
        i = i + 1;
    }
    assert(bytes@.take(bytes@.len() as int) =~= bytes@);
    if codepoints.len() != s.unicode_len() {
        let msg = String::from_str(
            "Tried to print a string with characters that are not supported by the Windows-1252 encoding with a built-in font: ",
        ).concat(s);
        Err(Error::new(msg, ErrorKind::UnsupportedEncoding))
    } else {
        Ok(codepoints)
    }
}

/// Encodes the given string using the Windows-1252 encoding for use with built-in PDF fonts,
/// returning an error if it contains unsupported characters.
pub fn encode_win1252(s: &str) -> (r: Result<Vec<u16>, Error>)
    ensures
        ({
            let bytes = lopdf_encode_text("WinAnsiEncoding"@, s@);
            match r {
                Ok(codepoints) => bytes.len() == s@.len() && codepoints@ == widen(bytes),
                Err(e) => {
                    &&& bytes.len() != s@.len()
                    &&& e.kind == ErrorKind::UnsupportedEncoding
                    &&& e.msg@ == unsupported_encoding_message(s@)
                },
            }
        }),
{
    let bytes = encode_text("WinAnsiEncoding", s);
    win1252_codepoints(s, bytes)
}

/// The colour in effect for a fill colour that may be unset: unset is black.
pub open spec fn fill_or_black(fill: Option<Color>) -> Color {
    match fill {
        Some(c) => c,
        None => black(),
    }
}

/// Where the first character of a string goes on a line at `position`: the
/// first string of a section starts at the left side bearing of its first
/// character, later strings continue where the text is.
pub open spec fn start_position(position: Position, is_first: bool, s: Seq<char>, shaped: ShapedText) -> Position {
    if is_first && s.len() > 0 {
        Position { x: Mm((position.x.0 - shaped.first_left_bearing.0) as i64), y: position.y }
    } else {
        position
    }
}

/// Where the text cursor goes for a line at `position` of `area`, relative to
/// the page: on the baseline of the line, one glyph height below its top.
pub open spec fn baseline_cursor(area: Area, metrics: Metrics, position: Position) -> Position {
    let p = to_page(area, position);
    Position { x: p.x, y: Mm((p.y.0 - metrics.glyph_height.0) as i64) }
}

/// Whether the cursor for a line at `position` of `area` can be computed
/// without leaving the range of lengths.
pub open spec fn cursor_fits_at(area: Area, metrics: Metrics, position: Position) -> bool {
    &&& to_page_fits(area, position)
    &&& fits(to_page(area, position).y.0 - metrics.glyph_height.0)
}

/// Whether a string can be placed on a line at `position` without leaving
/// the range of lengths (only the first string of a section is placed).
pub open spec fn start_fits(
    area: Area,
    metrics: Metrics,
    position: Position,
    is_first: bool,
    s: Seq<char>,
    shaped: ShapedText,
) -> bool {
    is_first ==> {
        &&& (s.len() > 0 ==> fits(position.x.0 - shaped.first_left_bearing.0))
        &&& cursor_fits_at(area, metrics, start_position(position, true, s, shaped))
    }
}

/// Whether a line whose top is at `top` and which is `height` high fits in the area.
pub open spec fn fits_in(area: Area, top: int, height: int) -> bool {
    top + height <= area.area_size().height.0
}

/// Whether the string can be printed in the style: built-in fonts need one
/// Windows-1252 byte for each character.
pub open spec fn encodable(s: Seq<char>, style: TextStyle) -> bool {
    !style.builtin || lopdf_encode_text("WinAnsiEncoding"@, s).len() == s.len()
}

/// The code points that print the string: its Windows-1252 bytes for built-in
/// fonts, the given glyphs for embedded ones.
pub open spec fn codepoints_of(s: Seq<char>, style: TextStyle, shaped: ShapedText) -> Seq<u16> {
    if style.builtin {
        widen(lopdf_encode_text("WinAnsiEncoding"@, s))
    } else {
        shaped.glyph_ids@
    }
}

/// The fill colour operations of a string in `style` after a string that set
/// `previous`: the style's colour, or black where only the previous string set one.
pub open spec fn color_ops(previous: Option<Color>, style: TextStyle) -> Seq<TextOp> {
    match style.color {
        Some(c) => seq![TextOp::SetFillColor(c)],
        None => if previous is Some {
            seq![TextOp::SetFillColor(black())]
        } else {
            Seq::empty()
        },
    }
}

/// The operations that close a section whose strings last set `fill`.
pub open spec fn close_ops(fill: Option<Color>) -> Seq<TextOp> {
    if fill is Some {
        seq![TextOp::SetFillColor(black()), TextOp::EndTextSection]
    } else {
        seq![TextOp::EndTextSection]
    }
}

/// `ops` is `prefix` followed by one operation that writes `glyphs`.
pub open spec fn writes_after(ops: Seq<TextOp>, prefix: Seq<TextOp>, glyphs: Seq<(i64, u16)>) -> bool {
    &&& ops.len() == prefix.len() + 1
    &&& ops.take(prefix.len() as int) == prefix
    &&& ops.last() matches TextOp::WritePositionedCodepoints(g)
    &&& g@ == glyphs
}

/// The colour in effect after the operations: that of the last fill colour
/// operation, or black where there is none.
pub open spec fn fill_in_effect(ops: Seq<TextOp>) -> Color
    decreases ops.len(),
{
    if ops.len() == 0 {
        black()
    } else {
        match ops.last() {
            TextOp::SetFillColor(c) => c,
            _ => fill_in_effect(ops.drop_last()),
        }
    }
}

/// The operations of an open text section since it was opened: they begin
/// with the one that opens the text object, nothing after that opens or closes
/// one, and the colour in effect is the one the section's strings last set
/// (black where none set one).
pub open spec fn section_log(section: TextSection, log: Seq<TextOp>) -> bool {
    &&& log.len() >= 1
    &&& log[0] == TextOp::BeginTextSection
    &&& forall|i: int|
        1 <= i < log.len() ==> !(#[trigger] log[i] is BeginTextSection) && !(log[i] is EndTextSection)
    &&& fill_in_effect(log) == fill_or_black(section.fill_color())
}

/// A text section that is drawn on an area of a layer.
#[derive(Debug)]
pub struct TextSection {
    area: Area,
    position: Position,
    fill_color: Option<Color>,
    is_first: bool,
    metrics: Metrics,
}

impl TextSection {
    /// The area the section is drawn on.
    pub closed spec fn section_area(&self) -> Area {
        self.area
    }

    /// The upper left corner of the current line, relative to the area.
    pub closed spec fn position(&self) -> Position {
        self.position
    }

    /// The fill colour that the last string set, if it set one.
    pub closed spec fn fill_color(&self) -> Option<Color> {
        self.fill_color
    }

    /// Whether no string has been printed yet.
    pub closed spec fn is_first(&self) -> bool {
        self.is_first
    }

    /// The metrics that the section's lines are measured by.
    pub closed spec fn metrics(&self) -> Metrics {
        self.metrics
    }

    /// `section` is the one that opens at `position` of `area`: nothing
    /// printed yet and no fill colour set.
    pub open spec fn is_opened(section: TextSection, area: Area, position: Position, metrics: Metrics) -> bool {
        &&& section.section_area() == area
        &&& section.position() == position
        &&& section.fill_color() == None::<Color>
        &&& section.is_first()
        &&& section.metrics() == metrics
    }

    /// `r` and `new_ops` are what opening a section at `position` of `area`
    /// gives: a section where its first line fits, with the operations that
    /// open the text object, and nothing otherwise.
    pub open spec fn opening(
        area: Area,
        position: Position,
        metrics: Metrics,
        old_ops: Seq<TextOp>,
        r: Option<TextSection>,
        new_ops: Seq<TextOp>,
    ) -> bool {
        match r {
            Some(section) => {
                &&& fits_in(area, position.y.0 as int, metrics.glyph_height.0 as int)
                &&& Self::is_opened(section, area, position, metrics)
                &&& new_ops == old_ops + seq![
                    TextOp::BeginTextSection,
                    TextOp::SetLineHeight(metrics.line_height),
                ]
            },
            None => {
                &&& !fits_in(area, position.y.0 as int, metrics.glyph_height.0 as int)
                &&& new_ops == old_ops
            },
        }
    }

    /// `after`, `new_ops` and `added` are what `add_newline` makes of
    /// `before` and `old_ops`: where the next line, one line height further
    /// down, fits in the area with its glyphs, the section moves to it and a
    /// line break is written; otherwise nothing changes.
    pub open spec fn newline(
        before: TextSection,
        old_ops: Seq<TextOp>,
        after: TextSection,
        new_ops: Seq<TextOp>,
        added: bool,
    ) -> bool {
        let next_top = before.position().y.0 + before.metrics().line_height.0;
        &&& added == fits_in(before.section_area(), next_top, before.metrics().glyph_height.0 as int)
        &&& after.section_area() == before.section_area()
        &&& after.fill_color() == before.fill_color()
        &&& after.is_first() == before.is_first()
        &&& after.metrics() == before.metrics()
        &&& after.position().x == before.position().x
        &&& added ==> after.position().y.0 == next_top && new_ops == old_ops.push(TextOp::AddLineBreak)
        &&& !added ==> after.position() == before.position() && new_ops == old_ops
    }

    /// `after`, `new_ops` and `r` are what `print_str` makes of `before` and
    /// `old_ops` for the string `s`: the first string of a section places the
    /// cursor; then, where the string can be encoded, its fill colour, its font
    /// and its glyphs are written (glyph `i` with kerning adjustment `i`, as
    /// far as both go), and otherwise the encoding error is returned.
    pub open spec fn printed(
        before: TextSection,
        s: Seq<char>,
        style: TextStyle,
        shaped: ShapedText,
        old_ops: Seq<TextOp>,
        after: TextSection,
        new_ops: Seq<TextOp>,
        r: Result<(), Error>,
    ) -> bool {
        let start = start_position(before.position(), before.is_first(), s, shaped);
        let cursor_ops = if before.is_first() {
            seq![TextOp::SetTextCursor(baseline_cursor(before.section_area(), before.metrics(), start))]
        } else {
            Seq::<TextOp>::empty()
        };
        &&& after.section_area() == before.section_area()
        &&& after.metrics() == before.metrics()
        &&& after.position() == start
        &&& !after.is_first()
        &&& if encodable(s, style) {
            &&& r is Ok
            &&& after.fill_color() == style.color
            &&& writes_after(
                new_ops,
                old_ops + cursor_ops + color_ops(before.fill_color(), style) + seq![
                    TextOp::SetFont { font: style.font, size: style.font_size },
                ],
                zip(shaped.kerning@, codepoints_of(s, style, shaped)),
            )
        } else {
            &&& r matches Err(e)
            &&& e.kind == ErrorKind::UnsupportedEncoding
            &&& e.msg@ == unsupported_encoding_message(s)
            &&& after.fill_color() == before.fill_color()
            &&& new_ops == old_ops + cursor_ops
        }
    }

    /// Opens a text section at the given position of the area if its first
    /// line fits there, and appends the operations that open it.
    pub fn new(area: Area, position: Position, metrics: Metrics, ops: &mut Vec<TextOp>) -> (r: Option<TextSection>)
        requires
            fits(position.y.0 + metrics.glyph_height.0),
        ensures
            Self::opening(area, position, metrics, old(ops)@, r, final(ops)@),
    {
        if position.y.0 + metrics.glyph_height.0 > area.size().height.0 {
            return None;
        }
        let section = TextSection { area, position, fill_color: None, is_first: true, metrics };
        ops.push(TextOp::BeginTextSection);
        ops.push(TextOp::SetLineHeight(metrics.line_height));
        assert(ops@ =~= old(ops)@ + seq![
            TextOp::BeginTextSection,
            TextOp::SetLineHeight(metrics.line_height),
        ]);
        Some(section)
    }

    fn set_text_cursor(&mut self, ops: &mut Vec<TextOp>)
        requires
            cursor_fits_at(old(self).section_area(), old(self).metrics(), old(self).position()),
        ensures
            *final(self) == *old(self),
            final(ops)@ == old(ops)@.push(
                TextOp::SetTextCursor(
                    baseline_cursor(old(self).section_area(), old(self).metrics(), old(self).position()),
                ),
            ),
    {
        let cursor_t = self.area.transform_position(self.position);
        ops.push(
            TextOp::SetTextCursor(
                Position { x: cursor_t.x, y: Mm(cursor_t.y.0 - self.metrics.glyph_height.0) },
            ),
        );
    }

    /// Tells whether `add_newline` can measure the next line without leaving
    /// the range of lengths.
    pub fn newline_in_range(&self) -> (b: bool)
        ensures
            b == (fits(self.position().y.0 + self.metrics().line_height.0) && fits(
                self.position().y.0 + self.metrics().line_height.0 + self.metrics().glyph_height.0,
            )),
    {
        let next_top = self.position.y.0 as i128 + self.metrics.line_height.0 as i128;
        in_range(next_top) && in_range(next_top + self.metrics.glyph_height.0 as i128)
    }

    /// Tells whether `print_str` can place `s` without leaving the range of lengths.
    pub fn print_in_range(&self, s: &str, shaped: &ShapedText) -> (b: bool)
        ensures
            b == start_fits(self.section_area(), self.metrics(), self.position(), self.is_first(), s@, *shaped),
    {
        if !self.is_first {
            return true;
        }
        start_in_range(&self.area, self.metrics, self.position, s, shaped)
    }

    /// Tries to add a new line and returns `true` if the area was large enough to fit the new
    /// line: the line one line height further down, with its glyphs.
    pub fn add_newline(&mut self, ops: &mut Vec<TextOp>) -> (added: bool)
        requires
            fits(old(self).position().y.0 + old(self).metrics().line_height.0),
            fits(
                old(self).position().y.0 + old(self).metrics().line_height.0
                    + old(self).metrics().glyph_height.0,
            ),
        ensures
            Self::newline(*old(self), old(ops)@, *final(self), final(ops)@, added),
    {
        let next_top = self.position.y.0 + self.metrics.line_height.0;
        if next_top + self.metrics.glyph_height.0 > self.area.size().height.0 {
            false
        } else {
            ops.push(TextOp::AddLineBreak);
            self.position.y = Mm(next_top);
            true
        }
    }

    /// Prints the given string with the given style.
    ///
    /// Built-in fonts print the string in the Windows-1252 encoding, and fail
    /// where it has characters that this encoding lacks; embedded fonts print
    /// the given glyphs.  Glyph `i` is written with kerning adjustment `i`.
    pub fn print_str(&mut self, s: &str, style: &TextStyle, shaped: &ShapedText, ops: &mut Vec<TextOp>) -> (r: Result<(), Error>)
        requires
            start_fits(
                old(self).section_area(),
                old(self).metrics(),
                old(self).position(),
                old(self).is_first(),
                s@,
                *shaped,
            ),
        ensures
            Self::printed(*old(self), s@, *style, *shaped, old(ops)@, *final(self), final(ops)@, r),
    {
        let ghost old_ops = ops@;
        let ghost before = *self;
        let ghost start = start_position(before.position(), before.is_first(), s@, *shaped);
        let ghost cursor_ops = if before.is_first() {
            seq![TextOp::SetTextCursor(baseline_cursor(before.section_area(), before.metrics(), start))]
        } else {
            Seq::<TextOp>::empty()
        };
        if self.is_first {
            if !s.is_empty() {
                self.position.x = Mm(self.position.x.0 - shaped.first_left_bearing.0);
            }
            self.set_text_cursor(ops);
        }
        self.is_first = false;
        assert(ops@ =~= old_ops + cursor_ops);
        let codepoints = if style.builtin {
            match encode_win1252(s) {
                Ok(c) => c,
                Err(e) => return Err(e),
            }
        } else {
            shaped.glyph_ids.clone()
        };
        match style.color {
            Some(color) => ops.push(TextOp::SetFillColor(color)),
            None => {
                if self.fill_color.is_some() {
                    ops.push(TextOp::SetFillColor(Color::Rgb(0, 0, 0)));
                }
            },
        }
        self.fill_color = style.color;
        ops.push(TextOp::SetFont { font: style.font, size: style.font_size });
        let glyphs = zip_positions(&shaped.kerning, &codepoints);
        let ghost prefix = old_ops + cursor_ops + color_ops(before.fill_color(), *style) + seq![
            TextOp::SetFont { font: style.font, size: style.font_size },
        ];
        assert(ops@ =~= prefix);
        ops.push(TextOp::WritePositionedCodepoints(glyphs));
        assert(ops@.take(prefix.len() as int) =~= prefix);
        Ok(())
    }

    /// Closes the section: where a string set a fill colour, resets it to
    /// black, then closes the text object.
    pub fn close(self, ops: &mut Vec<TextOp>)
        ensures
            final(ops)@ == old(ops)@ + close_ops(self.fill_color()),
    {
        if self.fill_color.is_some() {
            ops.push(TextOp::SetFillColor(Color::Rgb(0, 0, 0)));
        }
        ops.push(TextOp::EndTextSection);
        assert(ops@ =~= old(ops)@ + close_ops(self.fill_color()));
    }
}

/// A section opens with a log that holds the opening operations, black in effect.
pub proof fn lemma_log_opened(section: TextSection, old_ops: Seq<TextOp>, new_ops: Seq<TextOp>, area: Area, position: Position, metrics: Metrics)
    requires
        TextSection::opening(area, position, metrics, old_ops, Some(section), new_ops),
    ensures
        section_log(section, new_ops.skip(old_ops.len() as int)),
{
    let log = new_ops.skip(old_ops.len() as int);
    assert(log =~= seq![TextOp::BeginTextSection, TextOp::SetLineHeight(metrics.line_height)]);
    assert(log.drop_last() =~= seq![TextOp::BeginTextSection]);
    assert(log.drop_last().drop_last() =~= Seq::<TextOp>::empty());
    assert(fill_in_effect(Seq::<TextOp>::empty()) == black());
    assert(fill_in_effect(log.drop_last()) == black());
    assert(fill_in_effect(log) == black());
}

/// The fill colour in effect after a log extended by operations is that of
/// the last fill colour operation among them, or that of the log where they
/// set none.
pub proof fn lemma_fill_in_effect_append(log: Seq<TextOp>, more: Seq<TextOp>)
    ensures
        (forall|i: int| 0 <= i < more.len() ==> !(#[trigger] more[i] is SetFillColor))
            ==> fill_in_effect(log + more) == fill_in_effect(log),
    decreases more.len(),
{
    if more.len() > 0 {
        assert((log + more).drop_last() =~= log + more.drop_last());
        assert((log + more).last() == more.last());
        if forall|i: int| 0 <= i < more.len() ==> !(#[trigger] more[i] is SetFillColor) {
            assert(!(more[more.len() - 1] is SetFillColor));
            assert forall|i: int| 0 <= i < more.drop_last().len() implies !(#[trigger] more.drop_last()[i] is SetFillColor) by {
                assert(more.drop_last()[i] == more[i]);
            }
        }
        lemma_fill_in_effect_append(log, more.drop_last());
    } else {
        assert(log + more =~= log);
    }
}

/// Printing keeps the log of an open section: the colour in effect afterwards
/// is the one the string's style sets, black where it sets none (where the
/// string could not be printed, the colour stays), and no text object is
/// opened or closed.
pub proof fn lemma_log_printed(
    before: TextSection,
    s: Seq<char>,
    style: TextStyle,
    shaped: ShapedText,
    old_ops: Seq<TextOp>,
    after: TextSection,
    new_ops: Seq<TextOp>,
    r: Result<(), Error>,
    log: Seq<TextOp>,
)
    requires
        section_log(before, log),
        TextSection::printed(before, s, style, shaped, old_ops, after, new_ops, r),
    ensures
        section_log(after, log + new_ops.skip(old_ops.len() as int)),
        r is Ok ==> fill_in_effect(log + new_ops.skip(old_ops.len() as int)) == fill_or_black(style.color),
{
    let start = start_position(before.position(), before.is_first(), s, shaped);
    let cursor_ops = if before.is_first() {
        seq![TextOp::SetTextCursor(baseline_cursor(before.section_area(), before.metrics(), start))]
    } else {
        Seq::<TextOp>::empty()
    };
    let added = new_ops.skip(old_ops.len() as int);
    let ext = log + added;
    lemma_fill_in_effect_append(log, cursor_ops);
    if encodable(s, style) {
        let cops = color_ops(before.fill_color(), style);
        let font_op = seq![TextOp::SetFont { font: style.font, size: style.font_size }];
        let prefix = old_ops + cursor_ops + cops + font_op;
        assert(new_ops.take(prefix.len() as int) == prefix);
        assert(added =~= cursor_ops + cops + font_op + seq![new_ops.last()]) by {
            assert forall|i: int| 0 <= i < added.len() implies added[i] == (cursor_ops + cops + font_op + seq![new_ops.last()])[i] by {
                if i < added.len() - 1 {
                    assert(added[i] == new_ops[old_ops.len() + i]);
                    assert(new_ops[old_ops.len() + i] == new_ops.take(prefix.len() as int)[old_ops.len() + i]);
                }
            }
        }
        let last = seq![new_ops.last()];
        assert(ext =~= (log + cursor_ops + cops) + (font_op + last));
        lemma_fill_in_effect_append(log + cursor_ops + cops, font_op + last);
        assert(!((font_op + last)[0] is SetFillColor));
        assert(!((font_op + last)[1] is SetFillColor));
        if style.color is Some {
            assert((log + cursor_ops + cops).last() == cops[0]);
        } else if before.fill_color() is Some {
            assert((log + cursor_ops + cops).last() == cops[0]);
        } else {
            assert(log + cursor_ops + cops =~= log + cursor_ops);
        }
        assert forall|i: int| 1 <= i < ext.len() implies !(#[trigger] ext[i] is BeginTextSection) && !(ext[i] is EndTextSection) by {
            if i >= log.len() {
                assert(ext[i] == added[i - log.len()]);
            }
        }
    } else {
        assert(added =~= cursor_ops);
        assert forall|i: int| 1 <= i < ext.len() implies !(#[trigger] ext[i] is BeginTextSection) && !(ext[i] is EndTextSection) by {
            if i >= log.len() {
                assert(ext[i] == added[i - log.len()]);
            }
        }
    }
}

/// A new line keeps the log of an open section.
pub proof fn lemma_log_newline(
    before: TextSection,
    old_ops: Seq<TextOp>,
    after: TextSection,
    new_ops: Seq<TextOp>,
    added: bool,
    log: Seq<TextOp>,
)
    requires
        section_log(before, log),
        TextSection::newline(before, old_ops, after, new_ops, added),
    ensures
        section_log(after, log + new_ops.skip(old_ops.len() as int)),
{
    let more = new_ops.skip(old_ops.len() as int);
    if added {
        assert(more =~= seq![TextOp::AddLineBreak]);
    } else {
        assert(more =~= Seq::<TextOp>::empty());
    }
    lemma_fill_in_effect_append(log, more);
    let ext = log + more;
    assert forall|i: int| 1 <= i < ext.len() implies !(#[trigger] ext[i] is BeginTextSection) && !(ext[i] is EndTextSection) by {
        if i >= log.len() {
            assert(ext[i] == more[i - log.len()]);
        }
    }
}

/// Closing completes the log of a section: it opens one text object first,
/// closes it last, holds no other opening or closing in between, and leaves
/// black in effect.
pub proof fn lemma_log_closed(section: TextSection, log: Seq<TextOp>, old_ops: Seq<TextOp>, new_ops: Seq<TextOp>)
    requires
        section_log(section, log),
        new_ops == old_ops + close_ops(section.fill_color()),
    ensures
        ({
            let done = log + new_ops.skip(old_ops.len() as int);
            &&& done[0] == TextOp::BeginTextSection
            &&& done.last() == TextOp::EndTextSection
            &&& forall|i: int|
                1 <= i < done.len() - 1 ==> !(#[trigger] done[i] is BeginTextSection) && !(done[i] is EndTextSection)
            &&& fill_in_effect(done) == black()
        }),
{
    let more = new_ops.skip(old_ops.len() as int);
    assert(more =~= close_ops(section.fill_color()));
    let done = log + more;
    assert(done.drop_last() =~= log + more.drop_last());
    if section.fill_color() is Some {
        assert(more.drop_last() =~= seq![TextOp::SetFillColor(black())]);
        assert((log + more.drop_last()).last() == TextOp::SetFillColor(black()));
        assert(fill_in_effect(log + more.drop_last()) == black());
    } else {
        assert(more.drop_last() =~= Seq::<TextOp>::empty());
        assert(log + more.drop_last() =~= log);
        assert(fill_or_black(section.fill_color()) == black());
    }
    assert(done.last() == TextOp::EndTextSection);
    assert(fill_in_effect(done) == fill_in_effect(done.drop_last()));
    assert forall|i: int| 1 <= i < done.len() - 1 implies !(#[trigger] done[i] is BeginTextSection) && !(done[i] is EndTextSection) by {
        if i >= log.len() {
            assert(done[i] == more[i - log.len()]);
        }
    }
}

/// Whether a section opens depends only on the position and the area's size:
/// it opens exactly where its first line, whose top is at `position.y` and
/// which is one glyph height high, ends within the area's height.  An opened
/// section sets the line height of its metrics.
pub proof fn lemma_section_opens_iff_first_line_fits(
    area: Area,
    position: Position,
    metrics: Metrics,
    old_ops: Seq<TextOp>,
    r: Option<TextSection>,
    new_ops: Seq<TextOp>,
)
    requires
        TextSection::opening(area, position, metrics, old_ops, r, new_ops),
    ensures
        r is Some <==> position.y.0 + metrics.glyph_height.0 <= area.area_size().height.0,
        r is Some ==> {
            &&& new_ops.len() == old_ops.len() + 2
            &&& new_ops[old_ops.len() as int] == TextOp::BeginTextSection
            &&& new_ops.last() == TextOp::SetLineHeight(r->0.metrics().line_height)
            &&& r->0.metrics() == metrics
            &&& r->0.position() == position
        },
        r is None ==> new_ops == old_ops,
{
    if r is Some {
        assert(new_ops[old_ops.len() as int] == (old_ops + seq![
            TextOp::BeginTextSection,
            TextOp::SetLineHeight(metrics.line_height),
        ])[old_ops.len() as int]);
    }
}

/// A new line is added exactly where the next line, one line height below the
/// current one, ends within the area's height; it then starts exactly one line
/// height lower, and otherwise the section stays where it is.
pub proof fn lemma_newline_iff_next_line_fits(
    before: TextSection,
    old_ops: Seq<TextOp>,
    after: TextSection,
    new_ops: Seq<TextOp>,
    added: bool,
)
    requires
        TextSection::newline(before, old_ops, after, new_ops, added),
    ensures
        added <==> before.position().y.0 + before.metrics().line_height.0
            + before.metrics().glyph_height.0 <= before.section_area().area_size().height.0,
        added ==> after.position().y.0 == before.position().y.0 + before.metrics().line_height.0,
        added ==> after.position().y.0 + after.metrics().glyph_height.0
            <= after.section_area().area_size().height.0,
        !added ==> after.position() == before.position() && new_ops == old_ops,
{
}

/// Lines are one line height apart: after `k` new lines, a section's line
/// starts `k` line heights below where it started, every one of those lines
/// ends within the area, and `k` line breaks have been written.
pub proof fn lemma_newlines_are_line_heights_apart(sections: Seq<TextSection>, logs: Seq<Seq<TextOp>>)
    requires
        sections.len() >= 1,
        logs.len() == sections.len(),
        forall|i: int|
            0 <= i < sections.len() - 1 ==> #[trigger] TextSection::newline(
                sections[i],
                logs[i],
                sections[i + 1],
                logs[i + 1],
                true,
            ),
    ensures
        forall|k: int|
            0 <= k < sections.len() ==> {
                &&& (#[trigger] sections[k]).position().y.0 == sections[0].position().y.0 + k
                    * sections[0].metrics().line_height.0
                &&& sections[k].metrics() == sections[0].metrics()
                &&& sections[k].section_area() == sections[0].section_area()
                &&& (k > 0 ==> sections[0].position().y.0 + k * sections[0].metrics().line_height.0
                    + sections[0].metrics().glyph_height.0
                    <= sections[0].section_area().area_size().height.0)
                &&& logs[k].len() == logs[0].len() + k
                &&& forall|j: int|
                    logs[0].len() <= j < logs[k].len() ==> #[trigger] logs[k][j] == TextOp::AddLineBreak
            },
    decreases sections.len(),
{
    let n = sections.len();
    if n > 1 {
        lemma_newlines_are_line_heights_apart(sections.drop_last(), logs.drop_last());
        let k = n - 1;
        let i = k - 1;
        assert(TextSection::newline(sections[i], logs[i], sections[i + 1], logs[i + 1], true));
        assert(sections.drop_last()[k - 1] == sections[k - 1]);
        assert(logs.drop_last()[k - 1] == logs[k - 1]);
        let lh = sections[0].metrics().line_height.0 as int;
        assert(sections[k - 1].position().y.0 == sections[0].position().y.0 + (k - 1) * lh);
        assert((k - 1) * lh + lh == k * lh) by (nonlinear_arith);
        assert forall|k2: int| 0 <= k2 < n implies {
            &&& (#[trigger] sections[k2]).position().y.0 == sections[0].position().y.0 + k2
                * sections[0].metrics().line_height.0
            &&& sections[k2].metrics() == sections[0].metrics()
            &&& sections[k2].section_area() == sections[0].section_area()
            &&& (k2 > 0 ==> sections[0].position().y.0 + k2 * sections[0].metrics().line_height.0
                + sections[0].metrics().glyph_height.0
                <= sections[0].section_area().area_size().height.0)
            &&& logs[k2].len() == logs[0].len() + k2
            &&& forall|j: int|
                logs[0].len() <= j < logs[k2].len() ==> #[trigger] logs[k2][j] == TextOp::AddLineBreak
        } by {
            if k2 < k {
                assert(sections.drop_last()[k2] == sections[k2]);
                assert(logs.drop_last()[k2] == logs[k2]);
            } else {
                assert forall|j: int| logs[0].len() <= j < logs[k2].len() implies #[trigger] logs[k2][j]
                    == TextOp::AddLineBreak by {
                    if j < logs[k - 1].len() {
                        assert(logs.drop_last()[k - 1] == logs[k - 1]);
                        assert(logs[k2][j] == logs[k - 1].push(TextOp::AddLineBreak)[j]);
                    }
                }
            }
        }
    }
}

/// The first string of a section puts the text cursor on the baseline of its
/// first line: at the string's start (moved left by the bearing of its first
/// character) taken to the page by the area's own transform, one glyph height
/// lower.  That is `x = area.x + position.x - bearing` and
/// `y = page height - (area.y + position.y) - glyph height`.
pub proof fn lemma_first_string_cursor(
    before: TextSection,
    s: Seq<char>,
    style: TextStyle,
    shaped: ShapedText,
    old_ops: Seq<TextOp>,
    after: TextSection,
    new_ops: Seq<TextOp>,
    r: Result<(), Error>,
)
    requires
        TextSection::printed(before, s, style, shaped, old_ops, after, new_ops, r),
        before.is_first(),
        start_fits(before.section_area(), before.metrics(), before.position(), true, s, shaped),
    ensures
        ({
            let area = before.section_area();
            let bearing = if s.len() > 0 { shaped.first_left_bearing.0 as int } else { 0 };
            &&& new_ops.len() > old_ops.len()
            &&& new_ops[old_ops.len() as int] matches TextOp::SetTextCursor(c)
            &&& c.x.0 == area.origin().x.0 + before.position().x.0 - bearing
            &&& c.y.0 == area.area_layer().page_size.height.0 - (area.origin().y.0
                + before.position().y.0) - before.metrics().glyph_height.0
            &&& to_page(area, Position { x: Mm((before.position().x.0 - bearing) as i64), y: before.position().y })
                == (Position { x: c.x, y: Mm((c.y.0 + before.metrics().glyph_height.0) as i64) })
        }),
{
    let start = start_position(before.position(), true, s, shaped);
    let cursor_ops = seq![
        TextOp::SetTextCursor(baseline_cursor(before.section_area(), before.metrics(), start)),
    ];
    if encodable(s, style) {
        let prefix = old_ops + cursor_ops + color_ops(before.fill_color(), style) + seq![
            TextOp::SetFont { font: style.font, size: style.font_size },
        ];
        assert(new_ops.take(prefix.len() as int) == prefix);
        assert(new_ops[old_ops.len() as int] == new_ops.take(prefix.len() as int)[old_ops.len() as int]);
        assert(prefix[old_ops.len() as int] == cursor_ops[0]);
    } else {
        assert(new_ops[old_ops.len() as int] == (old_ops + cursor_ops)[old_ops.len() as int]);
    }
}

/// For a built-in font, `print_str` writes the Windows-1252 bytes of the
/// string as code points, each below 256, one per character (as far as the
/// kerning adjustments go), each with its kerning adjustment: the code points
/// that `encode_win1252` returns.  For an embedded font, it writes the given glyphs.
pub proof fn lemma_written_code_points(
    before: TextSection,
    s: Seq<char>,
    style: TextStyle,
    shaped: ShapedText,
    old_ops: Seq<TextOp>,
    after: TextSection,
    new_ops: Seq<TextOp>,
    r: Result<(), Error>,
)
    requires
        TextSection::printed(before, s, style, shaped, old_ops, after, new_ops, r),
        r is Ok,
    ensures
        new_ops.last() matches TextOp::WritePositionedCodepoints(g) && {
            let bytes = lopdf_encode_text("WinAnsiEncoding"@, s);
            let n = if style.builtin { s.len() } else { shaped.glyph_ids@.len() };
            &&& g@.len() == if shaped.kerning@.len() <= n { shaped.kerning@.len() } else { n }
            &&& forall|i: int| 0 <= i < g@.len() ==> (#[trigger] g@[i]).0 == shaped.kerning@[i]
            &&& style.builtin ==> bytes.len() == s.len()
            &&& style.builtin ==> forall|i: int|
                0 <= i < g@.len() ==> (#[trigger] g@[i]).1 == bytes[i] as u16 && g@[i].1 < 256
            &&& !style.builtin ==> forall|i: int|
                0 <= i < g@.len() ==> (#[trigger] g@[i]).1 == shaped.glyph_ids@[i]
        },
{
    assert(encodable(s, style));
}

/// `r` and `new_ops` are what `Area::print_str` gives: nothing where the
/// first line does not fit; otherwise the section's opening, the string's
/// operations and the section's closing, with the string's result.
pub open spec fn area_printed(
    area: Area,
    position: Position,
    style: TextStyle,
    metrics: Metrics,
    s: Seq<char>,
    shaped: ShapedText,
    old_ops: Seq<TextOp>,
    new_ops: Seq<TextOp>,
    r: Result<bool, Error>,
) -> bool {
    let open_ops = seq![TextOp::BeginTextSection, TextOp::SetLineHeight(metrics.line_height)];
    let cursor_ops = seq![
        TextOp::SetTextCursor(baseline_cursor(area, metrics, start_position(position, true, s, shaped))),
    ];
    if !fits_in(area, position.y.0 as int, metrics.glyph_height.0 as int) {
        &&& r matches Ok(false)
        &&& new_ops == old_ops
    } else if !encodable(s, style) {
        &&& r matches Err(e)
        &&& e.kind == ErrorKind::UnsupportedEncoding
        &&& e.msg@ == unsupported_encoding_message(s)
        &&& new_ops == old_ops + open_ops + cursor_ops + seq![TextOp::EndTextSection]
    } else {
        let before_glyphs = old_ops + open_ops + cursor_ops + color_ops(None, style) + seq![
            TextOp::SetFont { font: style.font, size: style.font_size },
        ];
        &&& r matches Ok(true)
        &&& writes_after(
            new_ops.take(before_glyphs.len() + 1 as int),
            before_glyphs,
            zip(shaped.kerning@, codepoints_of(s, style, shaped)),
        )
        &&& new_ops.len() == before_glyphs.len() + 1 + close_ops(style.color).len()
        &&& new_ops.skip(before_glyphs.len() + 1 as int) == close_ops(style.color)
    }
}

/// `op` writes glyphs whose code points are the given bytes, in order.
pub open spec fn writes_bytes(op: TextOp, bytes: Seq<u8>) -> bool {
    match op {
        TextOp::WritePositionedCodepoints(g) => forall|i: int|
            0 <= i < g@.len() ==> (#[trigger] g@[i]).1 < 256 && g@[i].1 == bytes[i] as u16,
        _ => false,
    }
}

/// `Area::print_str` prints exactly where the string's first line ends within
/// the area's height; it then opens the text object, puts the cursor on the
/// baseline of the string's start taken to the page by the area's transform
/// (`x = area.x + position.x - bearing`, `y = page height - (area.y +
/// position.y) - glyph height`), and, for a built-in font, writes the
/// string's Windows-1252 bytes, each below 256.
pub proof fn lemma_area_print_str_places_text(
    area: Area,
    position: Position,
    style: TextStyle,
    metrics: Metrics,
    s: Seq<char>,
    shaped: ShapedText,
    old_ops: Seq<TextOp>,
    new_ops: Seq<TextOp>,
    r: Result<bool, Error>,
)
    requires
        area_printed(area, position, style, metrics, s, shaped, old_ops, new_ops, r),
        start_fits(area, metrics, position, true, s, shaped),
    ensures
        r matches Ok(false) <==> position.y.0 + metrics.glyph_height.0 > area.area_size().height.0,
        position.y.0 + metrics.glyph_height.0 <= area.area_size().height.0 ==> {
            let bearing = if s.len() > 0 { shaped.first_left_bearing.0 as int } else { 0 };
            &&& new_ops.len() > old_ops.len() + 2
            &&& new_ops[old_ops.len() as int] == TextOp::BeginTextSection
            &&& new_ops[old_ops.len() + 1int] == TextOp::SetLineHeight(metrics.line_height)
            &&& new_ops[old_ops.len() + 2int] matches TextOp::SetTextCursor(c)
            &&& c.x.0 == area.origin().x.0 + position.x.0 - bearing
            &&& c.y.0 == area.area_layer().page_size.height.0 - (area.origin().y.0 + position.y.0)
                - metrics.glyph_height.0
        },
        (r matches Ok(true)) && style.builtin ==> exists|k: int|
            old_ops.len() + 2 < k < new_ops.len() && writes_bytes(
                #[trigger] new_ops[k],
                lopdf_encode_text("WinAnsiEncoding"@, s),
            ),
{
    let open_ops = seq![TextOp::BeginTextSection, TextOp::SetLineHeight(metrics.line_height)];
    let cursor_ops = seq![
        TextOp::SetTextCursor(baseline_cursor(area, metrics, start_position(position, true, s, shaped))),
    ];
    let n = old_ops.len() as int;
    if position.y.0 + metrics.glyph_height.0 <= area.area_size().height.0 {
        if encodable(s, style) {
            let before_glyphs = old_ops + open_ops + cursor_ops + color_ops(None, style) + seq![
                TextOp::SetFont { font: style.font, size: style.font_size },
            ];
            let m = before_glyphs.len() as int;
            let head = new_ops.take(m + 1);
            assert(head.take(m) == before_glyphs);
            assert(new_ops[n] == head.take(m)[n]);
            assert(new_ops[n + 1] == head.take(m)[n + 1]);
            assert(new_ops[n + 2] == head.take(m)[n + 2]);
            assert(new_ops[m] == head.last());
            if style.builtin {
                let k = m;
                assert(writes_bytes(new_ops[k], lopdf_encode_text("WinAnsiEncoding"@, s)));
            }
        } else {
            assert(new_ops[n] == (old_ops + open_ops + cursor_ops + seq![TextOp::EndTextSection])[n]);
            assert(new_ops[n + 1] == (old_ops + open_ops + cursor_ops + seq![TextOp::EndTextSection])[n + 1]);
            assert(new_ops[n + 2] == (old_ops + open_ops + cursor_ops + seq![TextOp::EndTextSection])[n + 2]);
        }
    }
}

/// Printing a string into an area is opening a section at the position,
/// printing the string into it and closing it.
pub proof fn lemma_area_print_composes(
    area: Area,
    position: Position,
    style: TextStyle,
    metrics: Metrics,
    s: Seq<char>,
    shaped: ShapedText,
    ops0: Seq<TextOp>,
    opened: Option<TextSection>,
    ops1: Seq<TextOp>,
    printed: TextSection,
    ops2: Seq<TextOp>,
    r: Result<(), Error>,
    ops3: Seq<TextOp>,
)
    requires
        TextSection::opening(area, position, metrics, ops0, opened, ops1),
        opened is Some ==> TextSection::printed(opened->0, s, style, shaped, ops1, printed, ops2, r),
        opened is Some ==> ops3 == ops2 + close_ops(printed.fill_color()),
        opened is None ==> ops3 == ops1,
    ensures
        area_printed(
            area,
            position,
            style,
            metrics,
            s,
            shaped,
            ops0,
            ops3,
            if opened is Some {
                match r {
                    Ok(_) => Ok(true),
                    Err(e) => Err(e),
                }
            } else {
                Ok(false)
            },
        ),
{
    if opened is Some {
        let section = opened->0;
        let open_ops = seq![TextOp::BeginTextSection, TextOp::SetLineHeight(metrics.line_height)];
        let cursor_ops = seq![
            TextOp::SetTextCursor(baseline_cursor(area, metrics, start_position(position, true, s, shaped))),
        ];
        if encodable(s, style) {
            let before_glyphs = ops0 + open_ops + cursor_ops + color_ops(None, style) + seq![
                TextOp::SetFont { font: style.font, size: style.font_size },
            ];
            assert(ops1 + cursor_ops + color_ops(section.fill_color(), style) + seq![
                TextOp::SetFont { font: style.font, size: style.font_size },
            ] =~= before_glyphs);
            let n = before_glyphs.len() as int;
            assert(ops3.take(n + 1) =~= ops2);
            assert(ops3.skip(n + 1) =~= close_ops(style.color));
        } else {
            assert(ops3 =~= ops0 + open_ops + cursor_ops + seq![TextOp::EndTextSection]);
        }
    }
}

/// Tells whether the first string `s` can be placed on a line at `position`
/// of `area` without leaving the range of lengths.
fn start_in_range(area: &Area, metrics: Metrics, position: Position, s: &str, shaped: &ShapedText) -> (b: bool)
    ensures
        b == start_fits(*area, metrics, position, true, s@, *shaped),
{
    let start = if s.is_empty() {
        position
    } else {
        let x = position.x.0 as i128 - shaped.first_left_bearing.0 as i128;
        if !in_range(x) {
            return false;
        }
        Position { x: Mm(x as i64), y: position.y }
    };
    if !area.position_in_range(start) {
        return false;
    }
    let p = area.transform_position(start);
    in_range(p.y.0 as i128 - metrics.glyph_height.0 as i128)
}

impl Area {
    /// Tells whether `print_str` can measure and place `s` at `position`
    /// without leaving the range of lengths.
    pub fn print_in_range(&self, position: Position, metrics: Metrics, s: &str, shaped: &ShapedText) -> (b: bool)
        ensures
            b == (fits(position.y.0 + metrics.glyph_height.0) && start_fits(*self, metrics, position, true, s@, *shaped)),
    {
        in_range(position.y.0 as i128 + metrics.glyph_height.0 as i128)
            && start_in_range(self, metrics, position, s, shaped)
    }

    /// Creates a new text section at the given position if the text section fits in this area.
    ///
    /// The given metrics are only used to calculate the line height of the section.  The position
    /// is relative to the upper left corner of the area.
    pub fn text_section(&self, position: Position, metrics: Metrics, ops: &mut Vec<TextOp>) -> (r: Option<TextSection>)
        requires
            fits(position.y.0 + metrics.glyph_height.0),
        ensures
            TextSection::opening(*self, position, metrics, old(ops)@, r, final(ops)@),
    {
        TextSection::new(*self, position, metrics, ops)
    }

    /// Tries to draw the given string at the given position and returns `true` if the area was
    /// large enough to draw the string.
    ///
    /// The position is relative to the upper left corner of the area; the
    /// metrics are those of the style's font.  The operations of the whole
    /// text section, from its opening to its closing, are appended to `ops`,
    /// also where printing fails.
    pub fn print_str(
        &self,
        position: Position,
        style: &TextStyle,
        metrics: Metrics,
        s: &str,
        shaped: &ShapedText,
        ops: &mut Vec<TextOp>,
    ) -> (r: Result<bool, Error>)
        requires
            fits(position.y.0 + metrics.glyph_height.0),
            start_fits(*self, metrics, position, true, s@, *shaped),
        ensures
            area_printed(*self, position, *style, metrics, s@, *shaped, old(ops)@, final(ops)@, r),
    {
        let ghost ops0 = ops@;
        let opened = self.text_section(position, metrics, ops);
        let ghost ops1 = ops@;
        let ghost opened_ghost = opened;
        match opened {
            Some(mut section) => {
                let ghost fresh = section;
                let r = section.print_str(s, style, shaped, ops);
                let ghost ops2 = ops@;
                let ghost printed = section;
                section.close(ops);
                proof {
                    lemma_area_print_composes(
                        *self, position, *style, metrics, s@, *shaped, ops0, opened_ghost, ops1,
                        printed, ops2, r, ops@,
                    );
                }
                match r {
                    Ok(()) => Ok(true),
                    Err(e) => Err(e),
                }
            },
            None => {
                proof {
                    lemma_area_print_composes(
                        *self, position, *style, metrics, s@, *shaped, ops0, opened_ghost, ops1,
                        arbitrary(), ops1, Ok(()), ops@,
                    );
                }
                Ok(false)
            },
        }
    }
}

/// Pairs each kerning adjustment with its code point, as far as the shorter
/// list goes.
fn zip_positions(kerning: &Vec<i64>, codepoints: &Vec<u16>) -> (pairs: Vec<(i64, u16)>)
    ensures
        pairs@ == zip(kerning@, codepoints@),
{
    let n = if kerning.len() <= codepoints.len() { kerning.len() } else { codepoints.len() };
    let mut pairs: Vec<(i64, u16)> = Vec::new();
    let mut i: usize = 0;
    while i < n
        invariant
            n <= kerning@.len(),
            n <= codepoints@.len(),
            n == zip(kerning@, codepoints@).len(),
            i <= n,
            pairs@ == zip(kerning@, codepoints@).take(i as int),
        decreases n - i,
    {
        pairs.push((kerning[i], codepoints[i]));
        assert(pairs@ =~= zip(kerning@, codepoints@).take(i + 1));
        i = i + 1;
    }
    assert(pairs@ =~= zip(kerning@, codepoints@));
    pairs
}

} // verus!
