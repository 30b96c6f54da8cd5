use genpdf::error::ErrorKind;
use genpdf::geometry::{Mm, Position, Size};
use genpdf::render::Layer;
use genpdf::style::{Color, Metrics};
use genpdf::text::{encode_win1252, win1252_codepoints, ShapedText, TextOp, TextSection, TextStyle};

fn pos(x: i64, y: i64) -> Position {
    Position { x: Mm(x), y: Mm(y) }
}

fn metrics() -> Metrics {
    Metrics { line_height: Mm(5_000), glyph_height: Mm(4_000) }
}

fn small_area() -> genpdf::render::Area {
    let layer = Layer { page: 0, index: 0, page_size: Size { width: Mm(100_000), height: Mm(100_000) } };
    let mut area = layer.area();
    area.set_height(Mm(12_000));
    area
}

fn builtin(color: Option<Color>) -> TextStyle {
    TextStyle { font: 0, builtin: true, font_size: 12, color }
}

fn shaped(bearing: i64, kerning: Vec<i64>) -> ShapedText {
    ShapedText { first_left_bearing: Mm(bearing), kerning, glyph_ids: Vec::new() }
}

#[test]
fn encode_win1252_maps_to_single_bytes() {
    assert_eq!(encode_win1252("Ab1").unwrap(), vec![0x41, 0x62, 0x31]);
    assert_eq!(encode_win1252("é€").unwrap(), vec![0xE9, 0x80]);
    assert_eq!(encode_win1252("").unwrap(), Vec::<u16>::new());
}

#[test]
fn encode_win1252_rejects_unsupported_characters() {
    let err = encode_win1252("a→b").unwrap_err();
    assert_eq!(err.kind, ErrorKind::UnsupportedEncoding);
    assert_eq!(
        err.msg,
        "Tried to print a string with characters that are not supported by the Windows-1252 encoding with a built-in font: a→b"
    );
}

#[test]
fn win1252_codepoints_checks_the_length() {
    assert_eq!(win1252_codepoints("ab", vec![0x61, 0x62]).unwrap(), vec![0x61, 0x62]);
    let err = win1252_codepoints("ab", vec![0x61]).unwrap_err();
    assert_eq!(err.kind, ErrorKind::UnsupportedEncoding);
    assert!(win1252_codepoints("a", vec![0x61, 0x62]).is_err());
}

#[test]
fn text_section_opens_only_where_the_first_line_fits() {
    let area = small_area();
    let mut ops = Vec::new();
    assert!(area.text_section(pos(0, 8_001), metrics(), &mut ops).is_none());
    assert!(ops.is_empty());
    let section = area.text_section(pos(0, 8_000), metrics(), &mut ops);
    assert!(section.is_some());
    assert_eq!(ops, vec![TextOp::BeginTextSection, TextOp::SetLineHeight(Mm(5_000))]);
}

#[test]
fn add_newline_moves_down_while_lines_fit() {
    let area = small_area();
    let mut ops = Vec::new();
    let mut section = TextSection::new(area, pos(0, 0), metrics(), &mut ops).unwrap();
    ops.clear();
    // Lines start at 0 and 5_000; the next would start at 10_000 and its
    // glyphs would reach 14_000, below the area's 12_000.
    assert!(section.add_newline(&mut ops));
    assert!(!section.add_newline(&mut ops));
    assert_eq!(ops, vec![TextOp::AddLineBreak]);
}

#[test]
fn add_newline_needs_room_for_the_glyphs_of_the_new_line() {
    let area = small_area();
    let mut ops = Vec::new();
    // The next line would start at 9_000 (fits) but its glyphs reach 13_000.
    let mut section = TextSection::new(area, pos(0, 4_000), metrics(), &mut ops).unwrap();
    ops.clear();
    assert!(!section.add_newline(&mut ops));
    assert!(ops.is_empty());
    // Starting at 3_000, the next line's glyphs end exactly at 12_000.
    let mut section = TextSection::new(area, pos(0, 3_000), metrics(), &mut ops).unwrap();
    ops.clear();
    assert!(section.add_newline(&mut ops));
    assert_eq!(ops, vec![TextOp::AddLineBreak]);
}

#[test]
fn print_str_places_the_cursor_once_and_writes_glyphs() {
    let area = small_area();
    let mut ops = Vec::new();
    let mut section = TextSection::new(area, pos(1_000, 0), metrics(), &mut ops).unwrap();
    ops.clear();
    section.print_str("Hé", &builtin(None), &shaped(200, vec![0, -15]), &mut ops).unwrap();
    assert_eq!(
        ops,
        vec![
            TextOp::SetTextCursor(pos(800, 96_000)),
            TextOp::SetFont { font: 0, size: 12 },
            TextOp::WritePositionedCodepoints(vec![(0, 0x48), (-15, 0xE9)]),
        ]
    );
    ops.clear();
    section.print_str("x", &builtin(None), &shaped(200, vec![7]), &mut ops).unwrap();
    assert_eq!(
        ops,
        vec![
            TextOp::SetFont { font: 0, size: 12 },
            TextOp::WritePositionedCodepoints(vec![(7, 0x78)]),
        ]
    );
    ops.clear();
    section.close(&mut ops);
    assert_eq!(ops, vec![TextOp::EndTextSection]);
}

#[test]
fn print_str_with_embedded_font_writes_the_given_glyphs() {
    let area = small_area();
    let mut ops = Vec::new();
    let mut section = TextSection::new(area, pos(0, 0), metrics(), &mut ops).unwrap();
    ops.clear();
    let style = TextStyle { font: 3, builtin: false, font_size: 10, color: None };
    let glyphs = ShapedText { first_left_bearing: Mm(0), kerning: vec![1, 2, 3], glyph_ids: vec![40, 41] };
    section.print_str("a→b", &style, &glyphs, &mut ops).unwrap();
    assert_eq!(
        ops,
        vec![
            TextOp::SetTextCursor(pos(0, 96_000)),
            TextOp::SetFont { font: 3, size: 10 },
            TextOp::WritePositionedCodepoints(vec![(1, 40), (2, 41)]),
        ]
    );
}

#[test]
fn fill_color_is_set_and_reset() {
    let area = small_area();
    let mut ops = Vec::new();
    let mut section = TextSection::new(area, pos(0, 0), metrics(), &mut ops).unwrap();
    ops.clear();
    let red = Color::Rgb(255, 0, 0);
    section.print_str("a", &builtin(Some(red)), &shaped(0, vec![0]), &mut ops).unwrap();
    assert_eq!(ops[1], TextOp::SetFillColor(red));
    ops.clear();
    section.print_str("b", &builtin(None), &shaped(0, vec![0]), &mut ops).unwrap();
    assert_eq!(ops[0], TextOp::SetFillColor(Color::Rgb(0, 0, 0)));
    ops.clear();
    section.print_str("c", &builtin(None), &shaped(0, vec![0]), &mut ops).unwrap();
    assert_eq!(ops[0], TextOp::SetFont { font: 0, size: 12 });
    ops.clear();
    section.print_str("d", &builtin(Some(red)), &shaped(0, vec![0]), &mut ops).unwrap();
    ops.clear();
    section.close(&mut ops);
    assert_eq!(ops, vec![TextOp::SetFillColor(Color::Rgb(0, 0, 0)), TextOp::EndTextSection]);
}

#[test]
fn print_str_fails_on_unsupported_characters_after_placing_the_cursor() {
    let area = small_area();
    let mut ops = Vec::new();
    let mut section = TextSection::new(area, pos(0, 0), metrics(), &mut ops).unwrap();
    ops.clear();
    let err = section.print_str("→", &builtin(None), &shaped(0, vec![0]), &mut ops).unwrap_err();
    assert_eq!(err.kind, ErrorKind::UnsupportedEncoding);
    assert_eq!(ops, vec![TextOp::SetTextCursor(pos(0, 96_000))]);
}

#[test]
fn area_print_str_reports_whether_it_fitted() {
    let area = small_area();
    let mut ops = Vec::new();
    let printed = area
        .print_str(pos(0, 9_000), &builtin(None), metrics(), "a", &shaped(0, vec![0]), &mut ops)
        .unwrap();
    assert!(!printed);
    assert!(ops.is_empty());
    let printed = area
        .print_str(pos(0, 0), &builtin(Some(Color::Greyscale(9))), metrics(), "a", &shaped(0, vec![0]), &mut ops)
        .unwrap();
    assert!(printed);
    assert_eq!(
        ops,
        vec![
            TextOp::BeginTextSection,
            TextOp::SetLineHeight(Mm(5_000)),
            TextOp::SetTextCursor(pos(0, 96_000)),
            TextOp::SetFillColor(Color::Greyscale(9)),
            TextOp::SetFont { font: 0, size: 12 },
            TextOp::WritePositionedCodepoints(vec![(0, 0x61)]),
            TextOp::SetFillColor(Color::Rgb(0, 0, 0)),
            TextOp::EndTextSection,
        ]
    );
}

#[test]
fn area_print_str_closes_the_section_on_error() {
    let area = small_area();
    let mut ops = Vec::new();
    let err = area
        .print_str(pos(0, 0), &builtin(None), metrics(), "→", &shaped(0, vec![0]), &mut ops)
        .unwrap_err();
    assert_eq!(err.kind, ErrorKind::UnsupportedEncoding);
    assert_eq!(
        ops,
        vec![
            TextOp::BeginTextSection,
            TextOp::SetLineHeight(Mm(5_000)),
            TextOp::SetTextCursor(pos(0, 96_000)),
            TextOp::EndTextSection,
        ]
    );
}

#[test]
fn a_section_opens_and_closes_its_text_object_once() {
    let area = small_area();
    let mut ops = Vec::new();
    let mut section = area.text_section(pos(0, 0), metrics(), &mut ops).unwrap();
    section.print_str("a", &builtin(Some(Color::Greyscale(1))), &shaped(0, vec![0]), &mut ops).unwrap();
    assert!(section.add_newline(&mut ops));
    section.print_str("b", &builtin(None), &shaped(0, vec![0]), &mut ops).unwrap();
    section.close(&mut ops);
    assert_eq!(ops.first(), Some(&TextOp::BeginTextSection));
    assert_eq!(ops.last(), Some(&TextOp::EndTextSection));
    let opens = ops.iter().filter(|op| **op == TextOp::BeginTextSection).count();
    let closes = ops.iter().filter(|op| **op == TextOp::EndTextSection).count();
    assert_eq!((opens, closes), (1, 1));
    let last_fill = ops.iter().rev().find_map(|op| match op {
        TextOp::SetFillColor(c) => Some(*c),
        _ => None,
    });
    assert_eq!(last_fill, Some(Color::Rgb(0, 0, 0)));
}

#[test]
fn range_checks_match_the_preconditions() {
    let area = small_area();
    let mut ops = Vec::new();
    let section = area.text_section(pos(0, 0), metrics(), &mut ops).unwrap();
    assert!(section.newline_in_range());
    assert!(section.print_in_range("a", &shaped(0, vec![])));
    assert!(!section.print_in_range("a", &shaped(i64::MIN, vec![])));
    assert!(area.print_in_range(pos(0, 0), metrics(), "a", &shaped(0, vec![])));
    assert!(!area.print_in_range(pos(0, i64::MAX), metrics(), "a", &shaped(0, vec![])));
    assert!(area.position_in_range(pos(5, 5)));
    assert!(!area.position_in_range(pos(0, i64::MIN)));
}
