use plotters::area::{DrawingArea, ToDrawingArea};
use plotters::chart::{ChartContext, DualCoordChartContext};
use plotters::coord::{CoordTranslate, ReverseCoordTranslate, Shift};
use plotters::element::BackendCoordOnly;
use plotters::mocked::MockedBackend;
use plotters::points::Cross;
use plotters::style::{RGBAColor, ShapeStyle};

fn pixel_rect<CT>(a: &DrawingArea<CT>) -> ((i32, i32), (i32, i32)) {
    let (x, y) = a.get_pixel_range();
    ((x.start, y.start), (x.end, y.end))
}

#[test]
fn chart_state_round_trip() {
    let backend = MockedBackend::new(1024, 768);
    let root = backend.to_drawing_area();
    let plot = root.margin(10, 20, 30, 40);
    let chart = ChartContext::new(plot.apply_coord_spec(Shift((100, 200))), (30, 10));
    let copy = chart.to_chart_state();
    assert_eq!(copy.drawing_area_size, (954, 738));
    let state = chart.into_chart_state();
    assert_eq!(state.drawing_area_pos, (30, 10));
    assert_eq!(state.drawing_area_size, (954, 738));
    let restored = state.restore(&root);
    assert_eq!(pixel_rect(restored.plotting_area()), ((30, 10), (984, 748)));
    assert_eq!(pixel_rect(restored.plotting_area()), pixel_rect(&plot));
    for p in [(0, 0), (5, -7), (1000, 3)] {
        assert_eq!(
            restored.plotting_area().map_coordinate(&p),
            plot.apply_coord_spec(Shift((100, 200))).map_coordinate(&p)
        );
    }
    let again = copy.restore(&root);
    assert_eq!(pixel_rect(again.plotting_area()), ((30, 10), (984, 748)));
}

#[test]
fn shared_chart_state_keeps_placement() {
    let backend = MockedBackend::new(300, 200);
    let root = backend.to_drawing_area();
    let chart = ChartContext::new(root.margin(5, 5, 5, 5).apply_coord_spec(Shift((1, 1))), (5, 5));
    let state = chart.into_shared_chart_state();
    assert_eq!(*state.coord, Shift((1, 1)));
    let restored = state.clone().restore(&root);
    assert_eq!(pixel_rect(restored.plotting_area()), ((5, 5), (295, 195)));
}

#[test]
fn dual_coord_swaps_label_areas() {
    let backend = MockedBackend::new(400, 300);
    let root = backend.to_drawing_area();
    let (top, rest) = root.split_vertically(20);
    let (left, plot) = rest.split_horizontally(30);
    let mut chart = ChartContext::new(plot.apply_coord_spec(Shift((30, 20))), (30, 20));
    chart.x_label_area = [Some(top), Some(root)];
    chart.y_label_area = [Some(left), Some(rest)];
    let dual = DualCoordChartContext::new(chart, Shift((0, 0)));
    assert!(dual.primary.x_label_area[0].is_none());
    assert!(dual.primary.x_label_area[1].is_some());
    assert!(dual.primary.y_label_area[0].is_some());
    assert!(dual.primary.y_label_area[1].is_none());
    assert_eq!(pixel_rect(&dual.secondary.x_label_area[0].unwrap()), pixel_rect(&top));
    assert!(dual.secondary.x_label_area[1].is_none());
    assert!(dual.secondary.y_label_area[0].is_none());
    assert_eq!(pixel_rect(&dual.secondary.y_label_area[1].unwrap()), pixel_rect(&rest));
    assert_eq!(pixel_rect(dual.secondary_plotting_area()), pixel_rect(&plot));
    assert_eq!(dual.borrow_secondary().drawing_area_pos, (0, 0));
    assert_eq!(dual.secondary_plotting_area().map_coordinate(&(1, 2)), (1, 2));
}

#[test]
fn dual_coord_state_round_trip() {
    let backend = MockedBackend::new(400, 300);
    let root = backend.to_drawing_area();
    let plot = root.margin(10, 10, 40, 40);
    let chart = ChartContext::new(plot.apply_coord_spec(Shift((40, 10))), (40, 10));
    let dual = DualCoordChartContext::new(chart, Shift((0, 0)));
    let copied = dual.to_chart_state();
    assert_eq!(copied.primary.drawing_area_size, (320, 280));
    let restored = dual.into_chart_state().restore(&root);
    assert_eq!(pixel_rect(restored.primary.plotting_area()), pixel_rect(&plot));
    assert_eq!(pixel_rect(restored.secondary_plotting_area()), pixel_rect(&plot));
    let (p, s) = restored.into_coord_trans_pair();
    assert_eq!(p.reverse_translate((50, 20)), Some((10, 10)));
    assert_eq!(s.reverse_translate((50, 20)), Some((50, 20)));
}

#[test]
fn secondary_series_is_drawn_with_secondary_coords() {
    let mut backend = MockedBackend::new(400, 300);
    let root = backend.to_drawing_area();
    let (_, plot) = root.split_horizontally(100);
    let chart = ChartContext::new(plot.apply_coord_spec(Shift((100, 0))), (100, 0));
    let mut dual = DualCoordChartContext::new(chart, Shift((150, 0)));
    let style = ShapeStyle::from_color(RGBAColor(0, 0, 0, 255));
    let series = vec![Cross::new((0, 10), 1, style), Cross::new((10, 10), 1, style)];
    let anno = dual
        .draw_secondary_series::<_, BackendCoordOnly, _>(&mut backend, &series)
        .unwrap();
    assert!(anno.label.is_none());
    anno.label = Some("second".to_string());
    assert_eq!(dual.primary.series_anno.len(), 1);
    assert_eq!(backend.num_draw_line_call, 4);
    dual.primary
        .draw_series::<_, BackendCoordOnly, _>(&mut backend, &series)
        .unwrap();
    assert_eq!(backend.num_draw_line_call, 8);
    let secondary = dual.into_secondary_coord_trans();
    assert_eq!(secondary.translate(&(0, 10)), (150, 10));
}
