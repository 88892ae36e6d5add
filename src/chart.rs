//! Chart contexts (a plotting area with label areas and series
//! annotations), their state snapshots for incremental re-rendering, and
//! charts with a secondary coordinate system sharing the plotting area.
use crate::area::{mapped_points, shrink_rect, DrawingArea, DrawingAreaError};
use crate::backend::{DrawOp, DrawingBackend};
use crate::coord::{CoordTranslate, ReverseCoordTranslate, Shift};
use crate::element::{CoordMapper, Drawable, PointCollection};
use crate::rect::Rect;
use std::sync::Arc;
use vstd::prelude::*;

verus! {

/// The annotation of a drawn series: its legend label, if any.
#[derive(Debug)]
pub struct SeriesAnno {
    pub label: Option<String>,
}

/// A chart: the plotting area with its coordinate system, the label areas
/// around it (bottom and top for x, left and right for y), the annotations
/// of the drawn series, and the plotting area's offset from the area the
/// chart was built on.
pub struct ChartContext<CT> {
    pub x_label_area: [Option<DrawingArea<Shift>>; 2],
    pub y_label_area: [Option<DrawingArea<Shift>>; 2],
    pub drawing_area: DrawingArea<CT>,
    pub series_anno: Vec<SeriesAnno>,
    pub drawing_area_pos: (i32, i32),
}

/// A chart context state - the data needed to reconstruct the chart context
/// without drawing it again: the plotting area's offset and size, and its
/// coordinate system. Used for incremental rendering: draw the chart's
/// furniture once, then restore the state each frame and redraw only the
/// data series.
pub struct ChartState<CT> {
    pub drawing_area_pos: (i32, i32),
    pub drawing_area_size: (u32, u32),
    pub coord: CT,
}

impl<CT: Clone> Clone for ChartState<CT> {
    fn clone(&self) -> Self {
        ChartState {
            drawing_area_pos: self.drawing_area_pos,
            drawing_area_size: self.drawing_area_size,
            coord: self.coord.clone(),
        }
    }
}

impl<CT1: Clone, CT2: Clone> Clone for DualCoordChartState<CT1, CT2> {
    fn clone(&self) -> Self {
        DualCoordChartState { primary: self.primary.clone(), secondary: self.secondary.clone() }
    }
}

/// The size in pixels of a well-formed rectangle.
pub open spec fn rect_size(r: Rect) -> (u32, u32) {
    ((r.x1 - r.x0) as u32, (r.y1 - r.y0) as u32)
}

/// The primitives a series of elements issues on a drawing area.
pub open spec fn series_ops<CT: CoordTranslate, M: CoordMapper, E: PointCollection<CT::From> + Drawable<M>>(
    area: DrawingArea<CT>,
    series: Seq<E>,
) -> Seq<DrawOp>
    decreases series.len(),
{
    if series.len() == 0 {
        Seq::empty()
    } else {
        series_ops::<CT, M, E>(area, series.drop_last()) + series.last().draw_ops(
            mapped_points::<CT, M>(area.area_coord(), area.area_rect(), series.last().points_spec()),
            area.area_rect(),
            rect_size(area.area_rect()),
        )
    }
}

impl<CT> ChartContext<CT> {
    /// A chart on `drawing_area`, which lies at `drawing_area_pos` from the
    /// area the chart is built on; no label areas and no series yet.
    pub fn new(drawing_area: DrawingArea<CT>, drawing_area_pos: (i32, i32)) -> (r: ChartContext<CT>)
        ensures
            r.drawing_area == drawing_area,
            r.drawing_area_pos == drawing_area_pos,
            r.x_label_area == [None::<DrawingArea<Shift>>, None],
            r.y_label_area == [None::<DrawingArea<Shift>>, None],
            r.series_anno@.len() == 0,
    {
        ChartContext {
            x_label_area: [None, None],
            y_label_area: [None, None],
            drawing_area,
            series_anno: Vec::new(),
            drawing_area_pos,
        }
    }

    /// The state that capturing this chart records.
    pub open spec fn state_spec(&self) -> ChartState<CT> {
        ChartState {
            drawing_area_pos: self.drawing_area_pos,
            drawing_area_size: rect_size(self.drawing_area.area_rect()),
            coord: self.drawing_area.area_coord(),
        }
    }

    /// The plotting area
    pub fn plotting_area(&self) -> (r: &DrawingArea<CT>)
        ensures
            *r == self.drawing_area,
    {
        &self.drawing_area
    }

    /// Convert a chart context into a chart state; the context is consumed.
    pub fn into_chart_state(self) -> (r: ChartState<CT>)
        ensures
            r == self.state_spec(),
    {
        let size = self.drawing_area.dim_in_pixel();
        ChartState {
            drawing_area_pos: self.drawing_area_pos,
            drawing_area_size: size,
            coord: self.drawing_area.into_coord_spec(),
        }
    }

    /// Convert the chart context into a sharable chart state: the
    /// coordinate system is shared rather than copied.
    pub fn into_shared_chart_state(self) -> (r: ChartState<Arc<CT>>)
        ensures
            r.drawing_area_pos == self.state_spec().drawing_area_pos,
            r.drawing_area_size == self.state_spec().drawing_area_size,
            *r.coord == self.state_spec().coord,
    {
        let size = self.drawing_area.dim_in_pixel();
        ChartState {
            drawing_area_pos: self.drawing_area_pos,
            drawing_area_size: size,
            coord: Arc::new(self.drawing_area.into_coord_spec()),
        }
    }

    /// Allocate the annotation of a new series.
    pub fn alloc_series_anno(&mut self) -> (r: &mut SeriesAnno)
        ensures
            r.label is None,
            final(self).series_anno@ == old(self).series_anno@.push(*final(r)),
            final(self).drawing_area == old(self).drawing_area,
            final(self).drawing_area_pos == old(self).drawing_area_pos,
            final(self).x_label_area == old(self).x_label_area,
            final(self).y_label_area == old(self).y_label_area,
    {
        let n = self.series_anno.len();
        self.series_anno.push(SeriesAnno { label: None });
        &mut self.series_anno[n]
    }
}

impl<CT: Clone> ChartContext<CT> {
    /// Make a chart state without consuming the context: the coordinate
    /// system is cloned.
    pub fn to_chart_state(&self) -> (r: ChartState<CT>)
        ensures
            r.drawing_area_pos == self.state_spec().drawing_area_pos,
            r.drawing_area_size == self.state_spec().drawing_area_size,
            cloned(self.state_spec().coord, r.coord),
    {
        ChartState {
            drawing_area_pos: self.drawing_area_pos,
            drawing_area_size: self.drawing_area.dim_in_pixel(),
            coord: self.drawing_area.as_coord_spec().clone(),
        }
    }
}

impl<CT: CoordTranslate> ChartContext<CT> {
    /// Draw a series of elements on the plotting area, in order; the first
    /// failure stops the series.
    pub fn draw_series<DB: DrawingBackend, M: CoordMapper, E: PointCollection<CT::From> + Drawable<M>>(
        &self,
        backend: &mut DB,
        series: &Vec<E>,
    ) -> (r: Result<(), DrawingAreaError<DB::ErrorType>>)
        ensures
            final(backend).size_spec() == old(backend).size_spec(),
            final(backend).never_fails() == old(backend).never_fails(),
            old(backend).never_fails() ==> r is Ok,
            r matches Err(e) ==> e is BackendError,
            r is Ok ==> final(backend).frame() == old(backend).frame() + series_ops::<CT, M, E>(
                self.drawing_area,
                series@,
            ),
    {
        let mut i: usize = 0;
        while i < series.len()
            invariant
                i <= series.len(),
                backend.size_spec() == old(backend).size_spec(),
                backend.never_fails() == old(backend).never_fails(),
                backend.frame() == old(backend).frame() + series_ops::<CT, M, E>(
                    self.drawing_area,
                    series@.subrange(0, i as int),
                ),
            decreases series.len() - i,
        {
            let e = &series[i];
            self.drawing_area.draw::<DB, M, E>(backend, e)?;
            proof {
                let pre = series@.subrange(0, i as int);
                let cur = series@.subrange(0, i + 1);
                assert(cur.drop_last() =~= pre);
                assert(cur.last() == series@[i as int]);
                assert(backend.frame() =~= old(backend).frame() + series_ops::<CT, M, E>(
                    self.drawing_area,
                    cur,
                ));
            }
            i = i + 1;
        }
        proof {
            assert(series@.subrange(0, series.len() as int) =~= series@);
        }
        Ok(())
    }
}

impl<CT> ChartState<CT> {
    /// The rectangle a restore onto an area of rectangle `root` gives: the
    /// recorded offset and size, kept within `root`.
    pub open spec fn restored_rect(&self, root: Rect) -> Rect {
        shrink_rect(
            root,
            self.drawing_area_pos.0 as int,
            self.drawing_area_pos.1 as int,
            self.drawing_area_size.0 as int,
            self.drawing_area_size.1 as int,
        )
    }

    /// Restore the chart context on the given drawing area
    pub fn restore(self, area: &DrawingArea<Shift>) -> (r: ChartContext<CT>)
        ensures
            r.drawing_area.area_rect() == self.restored_rect(area.area_rect()),
            r.drawing_area.area_coord() == self.coord,
            r.drawing_area_pos == self.drawing_area_pos,
            r.x_label_area == [None::<DrawingArea<Shift>>, None],
            r.y_label_area == [None::<DrawingArea<Shift>>, None],
            r.series_anno@.len() == 0,
    {
        let plot = area.place(self.drawing_area_pos, self.drawing_area_size);
        ChartContext {
            x_label_area: [None, None],
            y_label_area: [None, None],
            drawing_area: plot.apply_coord_spec(self.coord),
            series_anno: Vec::new(),
            drawing_area_pos: self.drawing_area_pos,
        }
    }
}

/// Capturing a chart's state and restoring it onto its root area gives the
/// chart's plotting area back: the same pixel rectangle, and a coordinate
/// system that maps every logical point to the same pixel and depth. This
/// holds where the plotting area lies within the root area at the chart's
/// recorded offset.
pub proof fn lemma_chart_state_round_trip<CT: CoordTranslate>(chart: ChartContext<CT>, root: Rect)
    requires
        root.wf(),
        chart.drawing_area.area_rect().wf(),
        chart.drawing_area.area_rect().within(root),
        chart.drawing_area.area_rect().x0 == root.x0 + chart.drawing_area_pos.0,
        chart.drawing_area.area_rect().y0 == root.y0 + chart.drawing_area_pos.1,
    ensures
        chart.state_spec().restored_rect(root) == chart.drawing_area.area_rect(),
        forall|p: CT::From|
            #[trigger] chart.state_spec().coord.translate_spec(p)
                == chart.drawing_area.area_coord().translate_spec(p)
                && chart.state_spec().coord.depth_spec(p) == chart.drawing_area.area_coord().depth_spec(p),
{
}

/// Capturing a dual-coordinate chart's state and restoring it onto its root
/// area gives both plotting areas back, with their coordinate systems. This
/// holds where the primary plotting area lies within the root area at its
/// recorded offset and the secondary chart plots on the same rectangle at
/// offset zero, as a freshly built dual-coordinate chart does.
pub proof fn lemma_dual_chart_state_round_trip<CT1: CoordTranslate, CT2: CoordTranslate>(
    chart: DualCoordChartContext<CT1, CT2>,
    root: Rect,
)
    requires
        root.wf(),
        chart.primary.drawing_area.area_rect().wf(),
        chart.primary.drawing_area.area_rect().within(root),
        chart.primary.drawing_area.area_rect().x0 == root.x0 + chart.primary.drawing_area_pos.0,
        chart.primary.drawing_area.area_rect().y0 == root.y0 + chart.primary.drawing_area_pos.1,
        chart.secondary.drawing_area.area_rect() == chart.primary.drawing_area.area_rect(),
        chart.secondary.drawing_area_pos == (0i32, 0i32),
    ensures
        chart.primary.state_spec().restored_rect(root) == chart.primary.drawing_area.area_rect(),
        chart.secondary.state_spec().restored_rect(chart.primary.state_spec().restored_rect(root))
            == chart.secondary.drawing_area.area_rect(),
        chart.primary.state_spec().coord == chart.primary.drawing_area.area_coord(),
        chart.secondary.state_spec().coord == chart.secondary.drawing_area.area_coord(),
{
}

/// The chart context that has two coordinate systems attached: the
/// secondary one shares the primary's plotting area. Series drawn through
/// `draw_secondary_series` use the secondary system.
pub struct DualCoordChartContext<CT1, CT2> {
    pub primary: ChartContext<CT1>,
    pub secondary: ChartContext<CT2>,
}

/// The chart state for a dual coord chart.
pub struct DualCoordChartState<CT1, CT2> {
    pub primary: ChartState<CT1>,
    pub secondary: ChartState<CT2>,
}

impl<CT1, CT2> DualCoordChartContext<CT1, CT2> {
    /// Attach a secondary coordinate system to a chart. The secondary chart
    /// plots on the primary's plotting area, and takes over the primary's
    /// bottom x label area and right y label area, so that the two systems
    /// label opposite sides.
    pub fn new(primary: ChartContext<CT1>, secondary_coord: CT2) -> (r: DualCoordChartContext<CT1, CT2>)
        ensures
            r.primary.drawing_area == primary.drawing_area,
            r.primary.drawing_area_pos == primary.drawing_area_pos,
            r.primary.x_label_area == [None, primary.x_label_area[1]],
            r.primary.y_label_area == [primary.y_label_area[0], None],
            r.primary.series_anno == primary.series_anno,
            r.secondary.drawing_area.area_rect() == primary.drawing_area.area_rect(),
            r.secondary.drawing_area.area_coord() == secondary_coord,
            r.secondary.x_label_area == [primary.x_label_area[0], None],
            r.secondary.y_label_area == [None, primary.y_label_area[1]],
            r.secondary.drawing_area_pos == (0i32, 0i32),
            r.secondary.series_anno@.len() == 0,
    {
        let secondary_drawing_area = primary.drawing_area.strip_coord_spec().apply_coord_spec(
            secondary_coord,
        );
        let x_bottom = primary.x_label_area[0];
        let x_top = primary.x_label_area[1];
        let y_left = primary.y_label_area[0];
        let y_right = primary.y_label_area[1];
        let ChartContext { x_label_area: _, y_label_area: _, drawing_area, series_anno, drawing_area_pos } =
            primary;
        DualCoordChartContext {
            primary: ChartContext {
                x_label_area: [None, x_top],
                y_label_area: [y_left, None],
                drawing_area,
                series_anno,
                drawing_area_pos,
            },
            secondary: ChartContext {
                x_label_area: [x_bottom, None],
                y_label_area: [None, y_right],
                drawing_area: secondary_drawing_area,
                series_anno: Vec::new(),
                drawing_area_pos: (0, 0),
            },
        }
    }

    /// Get a reference to the drawing area that uses the secondary coordinate system
    pub fn secondary_plotting_area(&self) -> (r: &DrawingArea<CT2>)
        ensures
            *r == self.secondary.drawing_area,
    {
        &self.secondary.drawing_area
    }

    /// Borrow the chart context that uses the secondary coordinate system
    pub fn borrow_secondary(&self) -> (r: &ChartContext<CT2>)
        ensures
            *r == self.secondary,
    {
        &self.secondary
    }

    /// Convert the chart context into a chart state
    pub fn into_chart_state(self) -> (r: DualCoordChartState<CT1, CT2>)
        ensures
            r.primary == self.primary.state_spec(),
            r.secondary == self.secondary.state_spec(),
    {
        DualCoordChartState {
            primary: self.primary.into_chart_state(),
            secondary: self.secondary.into_chart_state(),
        }
    }

    /// Convert the chart context into a sharable chart state.
    pub fn into_shared_chart_state(self) -> (r: DualCoordChartState<Arc<CT1>, Arc<CT2>>)
        ensures
            r.primary.drawing_area_pos == self.primary.state_spec().drawing_area_pos,
            r.primary.drawing_area_size == self.primary.state_spec().drawing_area_size,
            *r.primary.coord == self.primary.state_spec().coord,
            r.secondary.drawing_area_pos == self.secondary.state_spec().drawing_area_pos,
            r.secondary.drawing_area_size == self.secondary.state_spec().drawing_area_size,
            *r.secondary.coord == self.secondary.state_spec().coord,
    {
        DualCoordChartState {
            primary: self.primary.into_shared_chart_state(),
            secondary: self.secondary.into_shared_chart_state(),
        }
    }
}

impl<CT1: Clone, CT2: Clone> DualCoordChartContext<CT1, CT2> {
    /// Copy the coordinate specs and make a chart state
    pub fn to_chart_state(&self) -> (r: DualCoordChartState<CT1, CT2>)
        ensures
            r.primary.drawing_area_pos == self.primary.state_spec().drawing_area_pos,
            r.primary.drawing_area_size == self.primary.state_spec().drawing_area_size,
            r.secondary.drawing_area_pos == self.secondary.state_spec().drawing_area_pos,
            r.secondary.drawing_area_size == self.secondary.state_spec().drawing_area_size,
            cloned(self.primary.state_spec().coord, r.primary.coord),
            cloned(self.secondary.state_spec().coord, r.secondary.coord),
    {
        DualCoordChartState {
            primary: self.primary.to_chart_state(),
            secondary: self.secondary.to_chart_state(),
        }
    }
}

impl<CT1, CT2: CoordTranslate> DualCoordChartContext<CT1, CT2> {
    /// Draw a series with the secondary coordinate system; its annotation is
    /// kept with the primary chart's.
    pub fn draw_secondary_series<
        DB: DrawingBackend,
        M: CoordMapper,
        E: PointCollection<CT2::From> + Drawable<M>,
    >(&mut self, backend: &mut DB, series: &Vec<E>) -> (r: Result<
        &mut SeriesAnno,
        DrawingAreaError<DB::ErrorType>,
    >)
        ensures
            final(backend).size_spec() == old(backend).size_spec(),
            final(backend).never_fails() == old(backend).never_fails(),
            old(backend).never_fails() ==> r is Ok,
            r matches Err(e) ==> e is BackendError,
            r is Ok ==> final(backend).frame() == old(backend).frame() + series_ops::<CT2, M, E>(
                old(self).secondary.drawing_area,
                series@,
            ),
            r matches Ok(a) ==> a.label is None && final(self).primary.series_anno@
                == old(self).primary.series_anno@.push(*final(a)),
            r is Err ==> final(self).primary.series_anno == old(self).primary.series_anno,
            final(self).primary.drawing_area == old(self).primary.drawing_area,
            final(self).secondary.drawing_area == old(self).secondary.drawing_area,
    {
        self.secondary.draw_series::<DB, M, E>(backend, series)?;
        Ok(self.primary.alloc_series_anno())
    }
}

impl<CT1, CT2: ReverseCoordTranslate> DualCoordChartContext<CT1, CT2> {
    /// Convert the chart context into the secondary coordinate system, for
    /// mapping pixels back to logical coordinates.
    pub fn into_secondary_coord_trans(self) -> (r: CT2)
        ensures
            r == self.secondary.drawing_area.area_coord(),
    {
        self.secondary.drawing_area.into_coord_spec()
    }
}

impl<CT1: ReverseCoordTranslate, CT2: ReverseCoordTranslate> DualCoordChartContext<CT1, CT2> {
    /// Convert the chart context into its two coordinate systems, for
    /// mapping pixels back to logical coordinates in either.
    pub fn into_coord_trans_pair(self) -> (r: (CT1, CT2))
        ensures
            r.0 == self.primary.drawing_area.area_coord(),
            r.1 == self.secondary.drawing_area.area_coord(),
    {
        (self.primary.drawing_area.into_coord_spec(), self.secondary.drawing_area.into_coord_spec())
    }
}

impl<CT1, CT2> DualCoordChartState<CT1, CT2> {
    /// Restore the chart state on the given drawing area: the primary chart
    /// on the area, the secondary on the restored primary plotting area.
    pub fn restore(self, area: &DrawingArea<Shift>) -> (r: DualCoordChartContext<CT1, CT2>)
        ensures
            r.primary.drawing_area.area_rect() == self.primary.restored_rect(area.area_rect()),
            r.primary.drawing_area.area_coord() == self.primary.coord,
            r.secondary.drawing_area.area_rect() == self.secondary.restored_rect(
                self.primary.restored_rect(area.area_rect()),
            ),
            r.secondary.drawing_area.area_coord() == self.secondary.coord,
    {
        let primary = self.primary.restore(area);
        let secondary = self.secondary.restore(&primary.plotting_area().strip_coord_spec());
        DualCoordChartContext { primary, secondary }
    }
}

} // verus!
