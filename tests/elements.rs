use plotters::area::ToDrawingArea;
use plotters::backend::DrawingBackend;
use plotters::candlestick::CandleStick;
use plotters::composable::{ComposedElement, IntoDynElement};
use plotters::element::{BackendCoordAndZ, BackendCoordOnly, Drawable};
use plotters::mocked::{DrawCall, MockedBackend};
use plotters::points::{Cross, PointElement, TriangleMarker};
use plotters::shapes3d::Cuboid;
use plotters::rect::Rect;
use plotters::style::{RGBAColor, ShapeStyle};
use plotters::text::{FontDesc, FontFamily, FontStyle, TextStyle};
use plotters::text_elem::{MultiLineText, Text};

const RED: RGBAColor = RGBAColor(255, 0, 0, 255);
const GREEN: RGBAColor = RGBAColor(0, 255, 0, 255);
const BLUE: RGBAColor = RGBAColor(0, 0, 255, 255);
const CLIP: Rect = Rect { x0: 0, y0: 0, x1: 100, y1: 100 };

fn lines(b: &MockedBackend) -> Vec<((i32, i32), (i32, i32))> {
    b.calls()
        .iter()
        .filter_map(|c| match c {
            DrawCall::Line { from, to, .. } => Some((*from, *to)),
            _ => None,
        })
        .collect()
}

#[test]
fn cross_draws_two_diagonals() {
    let mut backend = MockedBackend::new(100, 100);
    let root = backend.to_drawing_area();
    let cross = Cross::new((10, 10), 3, ShapeStyle::from_color(RED));
    root.draw::<_, BackendCoordOnly, _>(&mut backend, &cross).unwrap();
    assert_eq!(lines(&backend), vec![((7, 7), (13, 13)), ((7, 13), (13, 7))]);
    assert_eq!(backend.num_draw_line_call, 2);
}

#[test]
fn cross_center_is_clamped_to_the_area() {
    let mut backend = MockedBackend::new(100, 100);
    let (_, right) = backend.to_drawing_area().split_horizontally(50);
    let cross = Cross::make_point((80, -20), 2, ShapeStyle::from_color(RED));
    right.draw::<_, BackendCoordOnly, _>(&mut backend, &cross).unwrap();
    // (80, -20) shifted to (130, -20), then clamped into [50, 100] x [0, 100]
    assert_eq!(lines(&backend), vec![((98, -2), (102, 2)), ((98, 2), (102, -2))]);
}

#[test]
fn triangle_marker_vertices() {
    let mut backend = MockedBackend::new(100, 100);
    let root = backend.to_drawing_area();
    let tri = TriangleMarker::new((50, 50), 10, ShapeStyle::from_color(BLUE).stroke_width(4));
    root.draw::<_, BackendCoordOnly, _>(&mut backend, &tri).unwrap();
    match &backend.calls()[0] {
        DrawCall::Polygon { vert, style } => {
            assert_eq!(vert, &vec![(50, 40), (42, 55), (59, 55)]);
            assert_eq!(style.stroke_width, 1);
            assert_eq!(style.color, BLUE.to_backend_color());
        }
        other => panic!("expected a polygon, got {:?}", other),
    }
}

#[test]
fn candlestick_with_falling_price_uses_loss_style() {
    let gain = ShapeStyle::from_color(GREEN).filled();
    let loss = ShapeStyle::from_color(RED);
    let c = CandleStick::new(0, 130.06f64, 131.37, 128.83, 129.15, gain, loss, 15);
    assert_eq!(c.style, loss);
    let up = CandleStick::new(0, 129.15f64, 131.37, 128.83, 130.06, gain, loss, 15);
    assert_eq!(up.style, gain);
    let level = CandleStick::new(0, 5, 6, 4, 5, gain, loss, 15);
    assert_eq!(level.style, loss);
}

#[test]
fn candlestick_draws_wicks_and_body() {
    let mut backend = MockedBackend::new(100, 100);
    let root = backend.to_drawing_area();
    let loss = ShapeStyle::from_color(RED).filled();
    let c = CandleStick::new(20, 60, 80, 10, 40, ShapeStyle::from_color(GREEN), loss, 7);
    root.draw::<_, BackendCoordOnly, _>(&mut backend, &c).unwrap();
    assert_eq!(lines(&backend), vec![((20, 40), (20, 80)), ((20, 10), (20, 60))]);
    match &backend.calls()[2] {
        DrawCall::Rect { upper_left, bottom_right, fill, style } => {
            assert_eq!(*upper_left, (17, 40));
            assert_eq!(*bottom_right, (24, 60));
            assert!(*fill);
            assert_eq!(style.color, RED.to_backend_color());
        }
        other => panic!("expected a rectangle, got {:?}", other),
    }
}

fn cuboid_vertices(z: impl Fn(i32) -> i32) -> Vec<((i32, i32), i32)> {
    (0..8).map(|i| ((i, i * 10), z(i))).collect()
}

fn polygons(b: &MockedBackend) -> Vec<Vec<(i32, i32)>> {
    b.calls()
        .iter()
        .filter_map(|c| match c {
            DrawCall::Polygon { vert, .. } => Some(vert.clone()),
            _ => None,
        })
        .collect()
}

#[test]
fn cuboid_faces_deepest_first() {
    let mut backend = MockedBackend::new(100, 100);
    backend.ensure_prepared().unwrap();
    let cube = Cuboid::new(
        [(0.0, 0.0, 0.0), (3.0, 2.0, 1.0)],
        ShapeStyle::from_color(BLUE),
        ShapeStyle::from_color(RED),
    );
    let pos = cuboid_vertices(|i| i);
    Drawable::<BackendCoordAndZ>::draw(&cube, &pos, &CLIP, &mut backend, (100, 100)).unwrap();
    assert_eq!(backend.calls().len(), 12);
    let faces = polygons(&backend);
    // summed depths: 12, 16, 10, 18, 6, 22 for faces 0..5
    assert_eq!(faces[0], vec![(4, 40), (5, 50), (7, 70), (6, 60)]);
    assert_eq!(faces[1], vec![(2, 20), (6, 60), (7, 70), (3, 30)]);
    assert_eq!(faces[5], vec![(0, 0), (1, 10), (3, 30), (2, 20)]);
    match &backend.calls()[1] {
        DrawCall::Path { path, style } => {
            assert_eq!(path, &vec![(4, 40), (5, 50), (7, 70), (6, 60), (4, 40)]);
            assert_eq!(style.color, RED.to_backend_color());
        }
        other => panic!("expected a path, got {:?}", other),
    }
}

#[test]
fn cuboid_level_faces_keep_their_order() {
    let mut backend = MockedBackend::new(100, 100);
    backend.ensure_prepared().unwrap();
    let cube = Cuboid::new([(0, 0, 0), (1, 1, 1)], ShapeStyle::from_color(BLUE), ShapeStyle::from_color(RED));
    assert_eq!(cube.vert[5], (1, 0, 1));
    let pos = cuboid_vertices(|_| 0);
    Drawable::<BackendCoordAndZ>::draw(&cube, &pos, &CLIP, &mut backend, (100, 100)).unwrap();
    let faces = polygons(&backend);
    assert_eq!(faces[0], vec![(0, 0), (2, 20), (6, 60), (4, 40)]);
    assert_eq!(faces[1], vec![(1, 10), (3, 30), (7, 70), (5, 50)]);
    assert_eq!(faces[5], vec![(4, 40), (5, 50), (7, 70), (6, 60)]);
}

#[test]
fn composed_parts_are_offset_by_the_anchor() {
    let mut backend = MockedBackend::new(100, 100);
    let root = backend.to_drawing_area();
    let ts = TextStyle::from_font(FontDesc::new(FontFamily::SansSerif, 10, FontStyle::Normal));
    let composed = ComposedElement::at((10, 10))
        .add(Cross::new((1, 2), 2, ShapeStyle::from_color(RED)).into_dyn())
        .add(Text::new("x".to_string(), (0, 0), ts).into_dyn());
    root.draw::<_, BackendCoordOnly, _>(&mut backend, &composed).unwrap();
    assert_eq!(lines(&backend), vec![((9, 10), (13, 14)), ((9, 14), (13, 10))]);
    match &backend.calls()[2] {
        DrawCall::Text { text, pos, .. } => {
            assert_eq!(text, "x");
            assert_eq!(*pos, (10, 10));
        }
        other => panic!("expected a text, got {:?}", other),
    }
}

#[test]
fn mixed_elements_draw_as_one_series() {
    let mut backend = MockedBackend::new(100, 100);
    let root = backend.to_drawing_area();
    let series: Vec<_> = (0..4)
        .map(|i| {
            if i % 2 == 0 {
                Cross::new((i * 10, 5), 1, ShapeStyle::from_color(RED)).into_dyn()
            } else {
                TriangleMarker::new((i * 10, 5), 2, ShapeStyle::from_color(GREEN)).into_dyn()
            }
        })
        .collect();
    for e in series.iter() {
        root.draw::<_, BackendCoordOnly, _>(&mut backend, e).unwrap();
    }
    assert_eq!(backend.num_draw_line_call, 4);
    assert_eq!(backend.num_fill_polygon_call, 2);
}

#[test]
fn multi_line_text_layout() {
    let mut backend = MockedBackend::new(200, 200);
    let root = backend.to_drawing_area();
    let ts = TextStyle::from_font(FontDesc::new(FontFamily::Serif, 20, FontStyle::Normal));
    let mut text = MultiLineText::new((5, 5), ts);
    text.push_line("a".to_string());
    text.push_line("b".to_string());
    text.push_line("c".to_string());
    assert_eq!(text.layout_lines((5, 5)), vec![(5, 5), (5, 30), (5, 55)]);
    text.set_line_height(150);
    assert_eq!(text.layout_lines((0, 0)), vec![(0, 0), (0, 30), (0, 60)]);
    text.relocate((10, 0));
    root.draw::<_, BackendCoordOnly, _>(&mut backend, &text).unwrap();
    let drawn: Vec<(String, (i32, i32))> = backend
        .calls()
        .iter()
        .filter_map(|c| match c {
            DrawCall::Text { text, pos, .. } => Some((text.clone(), *pos)),
            _ => None,
        })
        .collect();
    assert_eq!(
        drawn,
        vec![
            ("a".to_string(), (10, 0)),
            ("b".to_string(), (10, 30)),
            ("c".to_string(), (10, 60))
        ]
    );
}

#[test]
fn shape_style_builders() {
    let s = ShapeStyle::from_color(RED);
    assert!(!s.filled);
    assert_eq!(s.stroke_width, 1);
    let f = s.filled();
    assert!(f.filled);
    assert_eq!(f.color, RED);
    let w = f.stroke_width(5);
    assert_eq!(w.stroke_width, 5);
    assert!(w.filled);
    assert_eq!(w.to_backend_style().stroke_width, 5);
}

#[test]
fn composed_parts_are_clamped_to_the_area() {
    let mut backend = MockedBackend::new(100, 100);
    let (_, right) = backend.to_drawing_area().split_horizontally(50);
    let composed = ComposedElement::at((0, 0))
        .add(Cross::new((-10, 5), 1, ShapeStyle::from_color(RED)).into_dyn());
    right.draw::<_, BackendCoordOnly, _>(&mut backend, &composed).unwrap();
    // the part's point (-10, 5) from the anchor pixel (50, 0) is clamped to (50, 5)
    assert_eq!(lines(&backend), vec![((49, 4), (51, 6)), ((49, 6), (51, 4))]);
}

#[test]
fn multi_line_text_from_text() {
    let ts = TextStyle::from_font(FontDesc::new(FontFamily::Serif, 10, FontStyle::Normal));
    let t = MultiLineText::from_str("first\nsecond\r\nthird", (0, 0), ts);
    assert_eq!(t.lines, vec!["first".to_string(), "second".to_string(), "third".to_string()]);
    let u = MultiLineText::from_string("one line".to_string(), (1, 1), ts);
    assert_eq!(u.lines, vec!["one line".to_string()]);
    let e = MultiLineText::<(i32, i32)>::from_str("", (0, 0), ts);
    assert!(e.lines.is_empty());
}

#[test]
fn mocked_drawing_area_covers_the_canvas() {
    let (mut backend, root) = plotters::mocked::create_mocked_drawing_area(320, 240);
    assert_eq!(root.dim_in_pixel(), (320, 240));
    root.fill(&mut backend, &RED).unwrap();
    assert_eq!(backend.num_draw_rect_call, 1);
}

#[test]
fn multi_line_text_measures_with_a_font_backend() {
    let ts = TextStyle::from_font(FontDesc::new(FontFamily::Serif, 30, FontStyle::Normal));
    let mut t = MultiLineText::new((10, 10), ts);
    t.push_line("abc".to_string());
    t.push_line("de".to_string());
    let fonts = plotters::font::NaiveFontBackend;
    assert_eq!(t.compute_bounding_box_size("abc", &fonts).unwrap(), (41, 25));
    assert_eq!(t.estimate_dimension(&fonts).unwrap(), (41, 63));
    assert_eq!(
        t.compute_line_layout(&fonts).unwrap(),
        vec![((10, 10), (51, 35)), ((10, 48), (37, 73))]
    );
    let turned = TextStyle::from_font(
        FontDesc::new(FontFamily::Serif, 30, FontStyle::Normal).transform(plotters::text::FontTransform::Rotate90),
    );
    let r = MultiLineText::<(i32, i32)>::new((0, 0), turned);
    assert_eq!(r.compute_bounding_box_size("abc", &fonts).unwrap(), (25, 41));
}
