use plotters::area::{DrawingArea, ToDrawingArea};
use plotters::cartesian::{Cartesian2d, RangedCoordi32, RangedCoordu32};
use plotters::coord::Shift;
use plotters::mocked::{DrawCall, MockedBackend};
use plotters::size::AsRelative;
use plotters::style::{BackendColor, RGBAColor};
use plotters::text::{FontDesc, FontFamily, FontStyle, TextStyle};

const RED: RGBAColor = RGBAColor(255, 0, 0, 255);
const GREEN: RGBAColor = RGBAColor(0, 255, 0, 255);
const BLUE: RGBAColor = RGBAColor(0, 0, 255, 255);
const YELLOW: RGBAColor = RGBAColor(255, 255, 0, 255);
const WHITE: RGBAColor = RGBAColor(255, 255, 255, 255);
const BLACK: RGBAColor = RGBAColor(0, 0, 0, 255);
const MAGENTA: RGBAColor = RGBAColor(255, 0, 255, 255);
const CYAN: RGBAColor = RGBAColor(0, 255, 255, 255);

fn backend_color(c: &RGBAColor) -> BackendColor {
    BackendColor { alpha: c.3, rgb: (c.0, c.1, c.2) }
}

/// The color, fill flag and corners of the `i`-th recorded call, a rectangle.
fn rect_call(b: &MockedBackend, i: usize) -> (BackendColor, bool, (i32, i32), (i32, i32)) {
    match &b.calls()[i] {
        DrawCall::Rect { upper_left, bottom_right, style, fill } => {
            (style.color, *fill, *upper_left, *bottom_right)
        }
        other => panic!("expected a rectangle, got {:?}", other),
    }
}

fn pixel_rect(a: &DrawingArea<Shift>) -> ((i32, i32), (i32, i32)) {
    let (x, y) = a.get_pixel_range();
    ((x.start, y.start), (x.end, y.end))
}

#[test]
fn test_filling() {
    let mut backend = MockedBackend::new(1024, 768);
    let drawing_area = backend.to_drawing_area();
    drawing_area
        .fill(&mut backend, &WHITE)
        .expect("Drawing Failure");

    let (c, f, u, d) = rect_call(&backend, 0);
    assert_eq!(c, backend_color(&WHITE));
    assert_eq!(f, true);
    assert_eq!(u, (0, 0));
    assert_eq!(d, (1024, 768));
    assert_eq!(backend.num_draw_rect_call, 1);
    assert_eq!(backend.draw_count, 1);
}

#[test]
fn test_split_evenly() {
    let colors = vec![
        &RED, &BLUE, &YELLOW, &WHITE, &BLACK, &MAGENTA, &CYAN, &BLUE, &RED,
    ];
    let mut backend = MockedBackend::new(902, 900);
    let drawing_area = backend.to_drawing_area();

    let parts = drawing_area.split_evenly((3, 3));
    for (d, c) in parts.iter().zip(colors.iter()) {
        d.fill(&mut backend, *c).expect("Drawing Failure");
    }

    let mut k = 0;
    for col in 0..3 {
        for row in 0..3 {
            let (c, f, u, d) = rect_call(&backend, k);
            assert_eq!(c, backend_color(colors[col * 3 + row]));
            assert_eq!(f, true);
            assert_eq!(u, (300 * row as i32 + 2.min(row) as i32, 300 * col as i32));
            assert_eq!(
                d,
                (
                    300 + 300 * row as i32 + 2.min(row + 1) as i32,
                    300 + 300 * col as i32
                )
            );
            k += 1;
        }
    }
    assert_eq!(backend.num_draw_rect_call, 9);
    assert_eq!(backend.draw_count, 9);
}

#[test]
fn test_split_horizontally() {
    let mut backend = MockedBackend::new(1024, 768);
    let drawing_area = backend.to_drawing_area();

    let (left, right) = drawing_area.split_horizontally(345);
    left.fill(&mut backend, &RED).expect("Drawing Error");
    right.fill(&mut backend, &BLUE).expect("Drawing Error");

    let (c, f, u, d) = rect_call(&backend, 0);
    assert_eq!(c, backend_color(&RED));
    assert_eq!(f, true);
    assert_eq!(u, (0, 0));
    assert_eq!(d, (345, 768));
    let (c, f, u, d) = rect_call(&backend, 1);
    assert_eq!(c, backend_color(&BLUE));
    assert_eq!(f, true);
    assert_eq!(u, (345, 0));
    assert_eq!(d, (1024, 768));
    assert_eq!(backend.num_draw_rect_call, 2);
    assert_eq!(backend.draw_count, 2);
}

#[test]
fn test_split_vertically() {
    let mut backend = MockedBackend::new(1024, 768);
    let drawing_area = backend.to_drawing_area();

    let (left, right) = drawing_area.split_vertically(345);
    left.fill(&mut backend, &RED).expect("Drawing Error");
    right.fill(&mut backend, &BLUE).expect("Drawing Error");

    let (c, f, u, d) = rect_call(&backend, 0);
    assert_eq!(c, backend_color(&RED));
    assert_eq!(f, true);
    assert_eq!(u, (0, 0));
    assert_eq!(d, (1024, 345));
    let (c, f, u, d) = rect_call(&backend, 1);
    assert_eq!(c, backend_color(&BLUE));
    assert_eq!(f, true);
    assert_eq!(u, (0, 345));
    assert_eq!(d, (1024, 768));
    assert_eq!(backend.num_draw_rect_call, 2);
    assert_eq!(backend.draw_count, 2);
}

#[test]
fn test_split_grid() {
    let colors = vec![
        &RED, &BLUE, &YELLOW, &WHITE, &BLACK, &MAGENTA, &CYAN, &BLUE, &RED,
    ];
    let breaks: [i32; 5] = [100, 200, 300, 400, 500];

    for nxb in 0..=5 {
        for nyb in 0..=5 {
            let mut backend = MockedBackend::new(1024, 768);
            let drawing_area = backend.to_drawing_area();

            let result = drawing_area
                .split_by_breakpoints(&breaks[0..nxb as usize], &breaks[0..nyb as usize]);
            for i in 0..result.len() {
                result[i]
                    .fill(&mut backend, colors[i % colors.len()])
                    .expect("Drawing Error");
            }

            let mut k = 0;
            for row in 0..=nyb {
                for col in 0..=nxb {
                    let get_bp = |full, limit, id| {
                        (if id == 0 {
                            0
                        } else if id > limit {
                            full
                        } else {
                            breaks[id as usize - 1]
                        }) as i32
                    };

                    let expected_u = (get_bp(1024, nxb, col), get_bp(768, nyb, row));
                    let expected_d = (get_bp(1024, nxb, col + 1), get_bp(768, nyb, row + 1));
                    let expected_color = colors[(row * (nxb + 1) + col) as usize % colors.len()];

                    let (c, f, u, d) = rect_call(&backend, k);
                    assert_eq!(c, backend_color(expected_color));
                    assert_eq!(f, true);
                    assert_eq!(u, expected_u);
                    assert_eq!(d, expected_d);
                    k += 1;
                }
            }
            assert_eq!(backend.num_draw_rect_call, ((nxb + 1) * (nyb + 1)) as u32);
            assert_eq!(backend.draw_count, ((nyb + 1) * (nxb + 1)) as u32);
        }
    }
}

#[test]
fn test_titled() {
    let mut backend = MockedBackend::new(1024, 768);
    let drawing_area = backend.to_drawing_area();
    let style = TextStyle::from_font(FontDesc::new(FontFamily::Name("serif"), 30, FontStyle::Normal));

    drawing_area
        .titled(&mut backend, "This is the title", &style)
        .unwrap()
        .fill(&mut backend, &WHITE)
        .unwrap();

    match &backend.calls()[0] {
        DrawCall::Text { text, family, size, color, .. } => {
            assert_eq!(*color, backend_color(&BLACK));
            assert_eq!(family, "serif");
            assert_eq!(*size, 30);
            assert_eq!("This is the title", text);
        }
        other => panic!("expected a text, got {:?}", other),
    }
    let (c, f, u, d) = rect_call(&backend, 1);
    assert_eq!(c, backend_color(&WHITE));
    assert_eq!(f, true);
    assert_eq!(u.0, 0);
    assert!(u.1 > 0);
    assert_eq!(d, (1024, 768));
    assert_eq!(backend.num_draw_text_call, 1);
    assert_eq!(backend.num_draw_rect_call, 1);
    assert_eq!(backend.draw_count, 2);
}

#[test]
fn test_margin() {
    let mut backend = MockedBackend::new(1024, 768);
    let drawing_area = backend.to_drawing_area();

    drawing_area
        .margin(1, 2, 3, 4)
        .fill(&mut backend, &WHITE)
        .expect("Drawing Failure");

    let (c, f, u, d) = rect_call(&backend, 0);
    assert_eq!(c, backend_color(&WHITE));
    assert_eq!(f, true);
    assert_eq!(u, (3, 1));
    assert_eq!(d, (1024 - 4, 768 - 2));
    assert_eq!(backend.num_draw_rect_call, 1);
    assert_eq!(backend.draw_count, 1);
}

#[test]
fn test_relative_split() {
    let mut backend = MockedBackend::new(1000, 1200);
    let drawing_area = backend.to_drawing_area();

    let split =
        drawing_area.split_by_breakpoints(&[(30).percent_width()], &[(50).percent_height()]);

    split[0].fill(&mut backend, &RED).unwrap();
    split[1].fill(&mut backend, &BLUE).unwrap();
    split[2].fill(&mut backend, &GREEN).unwrap();
    split[3].fill(&mut backend, &WHITE).unwrap();

    let expected = [
        (&RED, (0, 0), (300, 600)),
        (&BLUE, (300, 0), (1000, 600)),
        (&GREEN, (0, 600), (300, 1200)),
        (&WHITE, (300, 600), (1000, 1200)),
    ];
    assert_eq!(backend.calls().len(), 4, "Too many draw rect");
    for (counter, (color, eu, ed)) in expected.iter().enumerate() {
        let (c, f, u, d) = rect_call(&backend, counter);
        assert_eq!(f, true);
        assert_eq!(c, backend_color(color));
        assert_eq!(u, *eu);
        assert_eq!(d, *ed);
    }
    assert_eq!(backend.num_draw_rect_call, 4);
    assert_eq!(backend.draw_count, 4);
}

#[test]
fn test_relative_shrink() {
    let mut backend = MockedBackend::new(1000, 1200);
    let drawing_area = backend
        .to_drawing_area()
        .shrink(((10).percent_width(), 100), (200, (50).percent_height()));

    drawing_area.fill(&mut backend, &RED).unwrap();

    let (_, _, u, d) = rect_call(&backend, 0);
    assert_eq!((100, 100), u);
    assert_eq!((300, 700), d);
    assert_eq!(backend.num_draw_rect_call, 1);
    assert_eq!(backend.draw_count, 1);
}

#[test]
fn split_horizontally_scenario_bounds() {
    let backend = MockedBackend::new(1024, 768);
    let root = backend.to_drawing_area();
    let (left, right) = root.split_horizontally(345);
    assert_eq!(pixel_rect(&left), ((0, 0), (345, 768)));
    assert_eq!(pixel_rect(&right), ((345, 0), (1024, 768)));
    assert_eq!(left.get_base_pixel(), (0, 0));
    assert_eq!(right.get_base_pixel(), (345, 0));
    assert_eq!(right.map_coordinate(&(10, 20)), (355, 20));
}

#[test]
fn split_beyond_area_is_clamped() {
    let backend = MockedBackend::new(100, 50);
    let root = backend.to_drawing_area();
    let (upper, lower) = root.split_vertically(80);
    assert_eq!(pixel_rect(&upper), ((0, 0), (100, 50)));
    assert_eq!(pixel_rect(&lower), ((0, 50), (100, 50)));
    let (left, right) = root.split_horizontally(-5);
    assert_eq!(pixel_rect(&left), ((0, 0), (0, 50)));
    assert_eq!(pixel_rect(&right), ((0, 0), (100, 50)));
}

#[test]
fn split_evenly_cell_of_902_by_900() {
    let backend = MockedBackend::new(902, 900);
    let cells = backend.to_drawing_area().split_evenly((3, 3));
    assert_eq!(cells.len(), 9);
    assert_eq!(pixel_rect(&cells[0]), ((0, 0), (301, 300)));
    assert_eq!(pixel_rect(&cells[1]), ((301, 0), (602, 300)));
    assert_eq!(pixel_rect(&cells[2]), ((602, 0), (902, 300)));
    assert_eq!(pixel_rect(&cells[8]), ((602, 600), (902, 900)));
}

#[test]
fn split_evenly_tiles_without_gaps() {
    let backend = MockedBackend::new(103, 47);
    let root = backend.to_drawing_area().margin(2, 3, 4, 5);
    let (rows, cols) = (4usize, 6usize);
    let cells = root.split_evenly((rows, cols));
    assert_eq!(cells.len(), rows * cols);
    let ((x0, y0), (x1, y1)) = pixel_rect(&root);
    let mut area = 0i64;
    for ri in 0..rows {
        for ci in 0..cols {
            let ((a0, b0), (a1, b1)) = pixel_rect(&cells[ri * cols + ci]);
            area += ((a1 - a0) as i64) * ((b1 - b0) as i64);
            if ci == 0 {
                assert_eq!(a0, x0);
            } else {
                assert_eq!(a0, pixel_rect(&cells[ri * cols + ci - 1]).1 .0);
            }
            if ri == 0 {
                assert_eq!(b0, y0);
            } else {
                assert_eq!(b0, pixel_rect(&cells[(ri - 1) * cols + ci]).1 .1);
            }
            let w0 = {
                let ((p, _), (q, _)) = pixel_rect(&cells[ri * cols]);
                q - p
            };
            assert!((a1 - a0 - w0).abs() <= 1);
        }
    }
    assert_eq!(area, ((x1 - x0) as i64) * ((y1 - y0) as i64));
    assert!(root.split_evenly((0, 3)).is_empty());
}

#[test]
fn split_by_no_breakpoints_gives_the_area() {
    let backend = MockedBackend::new(640, 480);
    let area = backend.to_drawing_area().margin(10, 20, 30, 40);
    let none: [i32; 0] = [];
    let parts = area.split_by_breakpoints(&none, &none);
    assert_eq!(parts.len(), 1);
    assert_eq!(pixel_rect(&parts[0]), pixel_rect(&area));
}

#[test]
fn split_grid_drops_outside_and_repeated_breaks() {
    let backend = MockedBackend::new(100, 100);
    let root = backend.to_drawing_area();
    let parts = root.split_by_breakpoints(&[70, 30, 30, 150, -10, 0], &[] as &[i32]);
    assert_eq!(parts.len(), 3);
    assert_eq!(pixel_rect(&parts[0]), ((0, 0), (30, 100)));
    assert_eq!(pixel_rect(&parts[1]), ((30, 0), (70, 100)));
    assert_eq!(pixel_rect(&parts[2]), ((70, 0), (100, 100)));
}

#[test]
fn margin_round_trip_and_clamping() {
    let backend = MockedBackend::new(200, 100);
    let root = backend.to_drawing_area();
    let inner = root.margin(10, 20, 30, 40);
    assert_eq!(pixel_rect(&inner), ((30, 10), (160, 80)));
    let back = inner.margin(-10, -20, -30, -40);
    assert_eq!(pixel_rect(&back), pixel_rect(&root));

    let squashed = root.margin(80, 80, 150, 150);
    let ((x0, y0), (x1, y1)) = pixel_rect(&squashed);
    assert!(x0 <= x1 && y0 <= y1);
    assert_eq!(squashed.dim_in_pixel(), (0, 0));
}

#[test]
fn shrink_stays_within_parent() {
    let backend = MockedBackend::new(300, 200);
    let parent = backend.to_drawing_area().margin(10, 10, 10, 10);
    let inside = parent.shrink((250, 150), (1000, 1000));
    assert_eq!(pixel_rect(&inside), ((260, 160), (290, 190)));
    let before = parent.shrink((-50, -50), (20, 30));
    assert_eq!(pixel_rect(&before), ((10, 10), (30, 40)));
    assert_eq!(before.get_base_pixel(), (10, 10));
}

#[test]
fn titled_offsets_by_padded_text_height() {
    let mut backend = MockedBackend::new(1024, 768);
    let root = backend.to_drawing_area();
    let style = TextStyle::from_font(FontDesc::new(FontFamily::Serif, 30, FontStyle::Normal));
    let (_, h) = root
        .estimate_text_size(&mut backend, "This is the title", &style)
        .unwrap();
    assert_eq!(h, 25);
    let rest = root.titled(&mut backend, "This is the title", &style).unwrap();
    let pad = (h / 2).min(5) as i32;
    assert_eq!(pixel_rect(&rest), ((0, pad * 2 + h as i32), (1024, 768)));
    assert_eq!(pixel_rect(&rest), ((0, 35), (1024, 768)));
    match &backend.calls()[0] {
        DrawCall::Text { pos, .. } => assert_eq!(*pos, (512, 5)),
        other => panic!("expected a text, got {:?}", other),
    }
}

#[test]
fn titled_with_unmeasurable_font_fails() {
    let mut backend = MockedBackend::new(1024, 768);
    let root = backend.to_drawing_area();
    let style = TextStyle::from_font(FontDesc::new(FontFamily::Serif, u32::MAX, FontStyle::Normal));
    let r = root.titled(&mut backend, "title", &style);
    assert!(matches!(
        r,
        Err(plotters::area::DrawingAreaError::BackendError(
            plotters::backend::DrawingErrorKind::DrawingError(plotters::mocked::MockedError)
        ))
    ));
    assert_eq!(backend.calls().len(), 0);
}

#[test]
fn prepare_happens_once_per_frame() {
    let mut backend = MockedBackend::new(64, 64);
    let root = backend.to_drawing_area();
    assert_eq!(backend.init_count(), 0);
    root.fill(&mut backend, &RED).unwrap();
    root.fill(&mut backend, &BLUE).unwrap();
    assert_eq!(backend.init_count(), 1);
    root.present(&mut backend).unwrap();
    assert_eq!(backend.init_count(), 0);
    assert_eq!(backend.calls().len(), 0);
    root.fill(&mut backend, &RED).unwrap();
    assert_eq!(backend.init_count(), 1);
}

#[test]
fn draw_text_and_pixel_are_relative_to_origin() {
    let mut backend = MockedBackend::new(200, 200);
    let (_, lower) = backend.to_drawing_area().split_vertically(50);
    let style = TextStyle::from_font(FontDesc::new(FontFamily::Monospace, 12, FontStyle::Bold));
    lower.draw_text(&mut backend, "hi", &style, (3, 4)).unwrap();
    lower.draw_pixel(&mut backend, &(1, 1), &GREEN).unwrap();
    match &backend.calls()[0] {
        DrawCall::Text { pos, family, .. } => {
            assert_eq!(*pos, (3, 54));
            assert_eq!(family, "monospace");
        }
        other => panic!("expected a text, got {:?}", other),
    }
    match &backend.calls()[1] {
        DrawCall::Pixel { point, color } => {
            assert_eq!(*point, (1, 51));
            assert_eq!(*color, backend_color(&GREEN));
        }
        other => panic!("expected a pixel, got {:?}", other),
    }
}

#[test]
fn screen_coord_and_coord_spec_access() {
    let backend = MockedBackend::new(200, 200);
    let (_, lower) = backend.to_drawing_area().split_vertically(50);
    assert_eq!(lower.strip_coord_spec().map_coordinate(&(0, 0)), (0, 50));
    assert_eq!(lower.use_screen_coord().map_coordinate(&(0, 0)), (0, 0));
    let mut attached = lower.apply_coord_spec(Shift((7, 8)));
    assert_eq!(*attached.as_coord_spec(), Shift((7, 8)));
    *attached.as_coord_spec_mut() = Shift((1, 2));
    assert_eq!(attached.map_coordinate(&(1, 1)), (2, 3));
    assert_eq!(attached.into_coord_spec(), Shift((1, 2)));
}

#[test]
fn test_ranges() {
    let drawing_area = MockedBackend::new(1024, 768)
        .to_drawing_area()
        .apply_coord_spec(Cartesian2d::<RangedCoordi32, RangedCoordu32>::new(
            RangedCoordi32::new(-100..100),
            RangedCoordu32::new(0..200),
            (0..1024, 0..768),
        ));

    let x_range = drawing_area.get_x_range();
    assert_eq!(x_range, -100..100);

    let y_range = drawing_area.get_y_range();
    assert_eq!(y_range, 0..200);
}

#[test]
fn cartesian_maps_linearly_with_y_upward() {
    let area = MockedBackend::new(1024, 768)
        .to_drawing_area()
        .apply_coord_spec(Cartesian2d::new(
            RangedCoordi32::new(-100..100),
            RangedCoordu32::new(0..200),
            (0..1024, 0..768),
        ));
    assert_eq!(area.map_coordinate(&(0, 100)), (512, 384));
    assert_eq!(area.map_coordinate(&(-100, 0)), (0, 768));
    assert_eq!(area.map_coordinate(&(100, 200)), (1024, 0));
    assert_eq!(area.map_coordinate(&(-99, 1)), (5, 765));
    assert_eq!(area.get_x_axis_pixel_range(), 0..1024);
    assert_eq!(area.get_y_axis_pixel_range(), 0..768);
}
