use genpdf::geometry::{Margins, Mm, Position, Size};
use genpdf::render::{Layer, Renderer};
use genpdf::style::{Color, LineStyle};

fn a4() -> Size {
    Size { width: Mm(210_000), height: Mm(297_000) }
}

fn a5() -> Size {
    Size { width: Mm(148_000), height: Mm(210_000) }
}

fn pos(x: i64, y: i64) -> Position {
    Position { x: Mm(x), y: Mm(y) }
}

#[test]
fn new_document_has_one_page_with_one_layer() {
    let r = Renderer::new(a4());
    assert_eq!(r.page_count(), 1);
    let page = r.first_page();
    assert_eq!(page.layer_count(), 1);
    assert_eq!(page.layer_name(0), Some("Layer 1"));
    assert_eq!(page.layer_name(1), None);
}

#[test]
fn add_page_appends_a_fresh_page() {
    let mut r = Renderer::new(a4());
    r.add_page(a5());
    assert_eq!(r.page_count(), 2);
    let last = r.last_page();
    assert_eq!(last.layer_count(), 1);
    assert_eq!(last.first_layer(), Layer { page: 1, index: 0, page_size: a5() });
    assert_eq!(r.first_page().first_layer().page_size, a4());
}

#[test]
fn get_page_is_some_exactly_below_the_count() {
    let mut r = Renderer::new(a4());
    r.add_page(a5());
    assert!(r.get_page(0).is_some());
    assert!(r.get_page(1).is_some());
    assert!(r.get_page(2).is_none());
    assert_eq!(r.get_page(1).unwrap().first_layer().page_size, a5());
}

#[test]
fn mutable_page_access_changes_only_that_page() {
    let mut r = Renderer::new(a4());
    r.add_page(a5());
    r.add_page(a4());
    r.get_page_mut(1).unwrap().add_layer("Notes".to_string());
    assert!(r.get_page_mut(7).is_none());
    assert_eq!(r.get_page(0).unwrap().layer_count(), 1);
    assert_eq!(r.get_page(1).unwrap().layer_count(), 2);
    assert_eq!(r.get_page(1).unwrap().layer_name(1), Some("Notes"));
    assert_eq!(r.get_page(2).unwrap().layer_count(), 1);
    r.first_page_mut().add_layer("Front".to_string());
    r.last_page_mut().add_layer("Back".to_string());
    assert_eq!(r.first_page().layer_name(1), Some("Front"));
    assert_eq!(r.last_page().layer_name(1), Some("Back"));
}

#[test]
fn layers_of_a_page() {
    let mut r = Renderer::new(a4());
    let page = r.first_page_mut();
    page.add_layer("Second".to_string());
    page.add_layer("Third".to_string());
    assert_eq!(page.layer_count(), 3);
    assert_eq!(page.first_layer().index, 0);
    assert_eq!(page.last_layer().index, 2);
    assert_eq!(page.get_layer(1), Some(Layer { page: 0, index: 1, page_size: a4() }));
    assert_eq!(page.get_layer(3), None);
}

#[test]
fn next_layer_uses_the_existing_one_or_adds_one() {
    let mut r = Renderer::new(a4());
    let page = r.first_page_mut();
    page.add_layer("Second".to_string());
    let first = page.first_layer();
    let second = first.next(page);
    assert_eq!(second.index, 1);
    assert_eq!(second.page, 0);
    assert_eq!(page.layer_count(), 2);
    let third = second.next(page);
    assert_eq!(third.index, 2);
    assert_eq!(page.layer_count(), 3);
    assert_eq!(page.layer_name(2), Some("Layer 3"));
    let fourth = third.next(page);
    assert_eq!(fourth.index, 3);
    assert_eq!(page.layer_name(3), Some("Layer 4"));
    assert_eq!(page.last_layer(), fourth);
}

#[test]
fn next_layer_names_count_in_decimal() {
    let mut r = Renderer::new(a4());
    let page = r.first_page_mut();
    let mut layer = page.first_layer();
    for _ in 0..11 {
        layer = layer.next(page);
    }
    assert_eq!(layer.index, 11);
    assert_eq!(page.layer_name(9), Some("Layer 10"));
    assert_eq!(page.layer_name(11), Some("Layer 12"));
}

#[test]
fn area_next_layer_keeps_the_geometry() {
    let mut r = Renderer::new(a4());
    let page = r.first_page_mut();
    let mut area = page.first_layer().area();
    area.add_margins(Margins { top: Mm(10), right: Mm(20), bottom: Mm(30), left: Mm(40) });
    let next = area.next_layer(page);
    assert_eq!(next.layer().index, 1);
    assert_eq!(next.size(), area.size());
    assert_eq!(next.transform_position(pos(0, 0)), area.transform_position(pos(0, 0)));
    assert_eq!(page.layer_count(), 2);
    assert_eq!(page.layer_name(1), Some("Layer 2"));
}

#[test]
fn layer_area_covers_the_page() {
    let r = Renderer::new(a4());
    let area = r.first_page().first_layer().area();
    assert_eq!(area.size(), a4());
    assert_eq!(area.layer().index, 0);
    assert_eq!(area.transform_position(pos(0, 0)), pos(0, 297_000));
}

#[test]
fn layer_transform_flips_the_y_axis() {
    let layer = Layer { page: 0, index: 0, page_size: a4() };
    assert_eq!(layer.transform_position(pos(5_000, 20_000)), pos(5_000, 277_000));
    assert_eq!(layer.transform_position(pos(5_000, 277_000)), pos(5_000, 20_000));
}

#[test]
fn flipping_twice_gives_the_position_back() {
    let layer = Layer { page: 1, index: 0, page_size: a5() };
    let p = pos(-3_000, 250_000);
    assert_eq!(layer.transform_position(layer.transform_position(p)), p);
}

#[test]
fn add_margins_shrinks_the_area() {
    let mut area = Layer { page: 0, index: 0, page_size: a4() }.area();
    area.add_margins(Margins { top: Mm(10_000), right: Mm(15_000), bottom: Mm(20_000), left: Mm(25_000) });
    assert_eq!(area.size(), Size { width: Mm(170_000), height: Mm(267_000) });
    assert_eq!(area.transform_position(pos(0, 0)), pos(25_000, 287_000));
}

#[test]
fn add_offset_equals_top_left_margins() {
    let base = Layer { page: 0, index: 0, page_size: a4() }.area();
    let mut by_offset = base;
    by_offset.add_offset(pos(7_000, 9_000));
    let mut by_margins = base;
    by_margins.add_margins(Margins { top: Mm(9_000), right: Mm(0), bottom: Mm(0), left: Mm(7_000) });
    assert_eq!(by_offset, by_margins);
    assert_eq!(by_offset.size(), Size { width: Mm(203_000), height: Mm(288_000) });
}

#[test]
fn set_size_width_height() {
    let mut area = Layer { page: 0, index: 0, page_size: a4() }.area();
    area.set_width(Mm(100));
    assert_eq!(area.size(), Size { width: Mm(100), height: Mm(297_000) });
    area.set_height(Mm(200));
    assert_eq!(area.size(), Size { width: Mm(100), height: Mm(200) });
    area.set_size(a5());
    assert_eq!(area.size(), a5());
    assert_eq!(area.transform_position(pos(1, 2)), pos(1, 296_998));
}

#[test]
fn draw_line_takes_points_to_the_page() {
    let mut area = Layer { page: 0, index: 0, page_size: a4() }.area();
    area.add_offset(pos(10_000, 10_000));
    let style = LineStyle { thickness: Mm(100), color: Color::Rgb(255, 0, 0) };
    let line = area.draw_line(vec![pos(0, 0), pos(50_000, 0), pos(50_000, 5_000)], style);
    assert_eq!(line.layer, area.layer());
    assert_eq!(line.points, vec![pos(10_000, 287_000), pos(60_000, 287_000), pos(60_000, 282_000)]);
    assert_eq!(line.thickness, Mm(100));
    assert_eq!(line.color, Color::Rgb(255, 0, 0));
    let empty = area.draw_line(Vec::new(), style);
    assert!(empty.points.is_empty());
}

#[test]
fn split_horizontally_by_weights() {
    let mut area = Layer { page: 0, index: 0, page_size: a4() }.area();
    area.add_margins(Margins { top: Mm(0), right: Mm(0), bottom: Mm(0), left: Mm(10_000) });
    // width is 200_000
    let parts = area.split_horizontally(&[1, 2, 1]);
    assert_eq!(parts.len(), 3);
    assert_eq!(parts[0].size(), Size { width: Mm(50_000), height: Mm(297_000) });
    assert_eq!(parts[1].size(), Size { width: Mm(100_000), height: Mm(297_000) });
    assert_eq!(parts[2].size(), Size { width: Mm(50_000), height: Mm(297_000) });
    assert_eq!(parts[0].transform_position(pos(0, 0)), pos(10_000, 297_000));
    assert_eq!(parts[1].transform_position(pos(0, 0)), pos(60_000, 297_000));
    assert_eq!(parts[2].transform_position(pos(0, 0)), pos(160_000, 297_000));
}

#[test]
fn split_horizontally_rounds_boundaries_toward_zero() {
    let mut area = Layer { page: 0, index: 0, page_size: a4() }.area();
    area.set_width(Mm(10));
    let parts = area.split_horizontally(&[1, 1, 1]);
    let widths: Vec<i64> = parts.iter().map(|a| a.size().width.0).collect();
    assert_eq!(widths, vec![3, 3, 4]);
    let starts: Vec<i64> = parts.iter().map(|a| a.transform_position(pos(0, 0)).x.0).collect();
    assert_eq!(starts, vec![0, 3, 6]);

    area.set_width(Mm(-10));
    let parts = area.split_horizontally(&[1, 2]);
    let widths: Vec<i64> = parts.iter().map(|a| a.size().width.0).collect();
    assert_eq!(widths, vec![-3, -7]);
    let starts: Vec<i64> = parts.iter().map(|a| a.transform_position(pos(0, 0)).x.0).collect();
    assert_eq!(starts, vec![0, -3]);
}

#[test]
fn split_parts_are_adjacent_and_cover_the_area() {
    let mut area = Layer { page: 0, index: 0, page_size: a4() }.area();
    area.set_width(Mm(1_000));
    let weights = [3, 0, 5, 7, 11];
    let parts = area.split_horizontally(&weights);
    assert_eq!(parts.len(), weights.len());
    for i in 0..parts.len() - 1 {
        let end = parts[i].transform_position(pos(parts[i].size().width.0, 0)).x.0;
        let next_start = parts[i + 1].transform_position(pos(0, 0)).x.0;
        assert_eq!(end, next_start);
    }
    let last = parts[parts.len() - 1];
    let covered = last.transform_position(pos(last.size().width.0, 0)).x.0;
    assert_eq!(covered, 1_000);
    assert_eq!(parts[1].size().width, Mm(0));
    let total: i64 = weights.iter().sum::<usize>() as i64;
    for (part, weight) in parts.iter().zip(weights.iter()) {
        let exact = 1_000 * *weight as i64;
        assert!((part.size().width.0 * total - exact).abs() < total);
    }
}

#[test]
fn split_by_one_weight_is_the_area() {
    let mut area = Layer { page: 0, index: 0, page_size: a4() }.area();
    area.add_margins(Margins { top: Mm(1), right: Mm(2), bottom: Mm(3), left: Mm(4) });
    let parts = area.split_horizontally(&[7]);
    assert_eq!(parts, vec![area]);
}

#[test]
fn split_by_zero_weights_gives_empty_parts() {
    let mut area = Layer { page: 0, index: 0, page_size: a4() }.area();
    area.add_offset(pos(3_000, 4_000));
    let parts = area.split_horizontally(&[0, 0]);
    assert_eq!(parts.len(), 2);
    for part in parts {
        assert_eq!(part.size(), Size { width: Mm(0), height: Mm(293_000) });
        assert_eq!(part.upper_left(), pos(3_000, 4_000));
    }
}

#[test]
fn split_by_no_weights_is_empty() {
    let area = Layer { page: 0, index: 0, page_size: a4() }.area();
    assert!(area.split_horizontally(&[]).is_empty());
}

#[test]
fn layers_know_their_page() {
    let mut r = Renderer::new(a4());
    r.add_page(a5());
    r.add_page(a4());
    assert_eq!(r.get_page(2).unwrap().last_layer().page, 2);
    let page = r.get_page_mut(1).unwrap();
    let next = page.first_layer().area().next_layer(page);
    assert_eq!(next.layer(), Layer { page: 1, index: 1, page_size: a5() });
}
