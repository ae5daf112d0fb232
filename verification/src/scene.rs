//! What an overlay consists of, as a mathematical function of the viewport,
//! the monitor metrics and the mouse position.

use crate::command::{
    Arrow, Color, DrawCommandView, Ellipse, Justify, TextLabelView, VerticalAlign,
};
use crate::decimal::{ratio_text, scalar_text};
use crate::geom::{inset_extent, point, Point2D, RectView, UNIT};
use crate::grid::grid_segments;
use crate::monitor::MonitorMetrics;
use vstd::prelude::*;

verus! {

/// Distance between the lines of the coarse grid.
pub const COARSE_STEP: i64 = 100 * UNIT;

/// Thickness of the lines of the coarse grid.
pub const COARSE_WEIGHT: i64 = UNIT;

/// Distance between the lines of the fine grid.
pub const FINE_STEP: i64 = 25 * UNIT;

/// Thickness of the lines of the fine grid.
pub const FINE_WEIGHT: i64 = 500;

/// Length of the head of a crosshair arrow.
pub const ARROW_HEAD_LENGTH: i64 = 16 * UNIT;

/// Width of the head of a crosshair arrow.
pub const ARROW_HEAD_WIDTH: i64 = 8 * UNIT;

/// How far the origin label stands right of and above the origin.
pub const ORIGIN_LABEL_OFFSET: i64 = 15 * UNIT;

/// How far the top and bottom labels stand right of the centre.
pub const LABEL_X_OFFSET: i64 = 30 * UNIT;

/// How far the left and right labels stand above the centre.
pub const LABEL_Y_OFFSET: i64 = 20 * UNIT;

/// Font size of every text of the overlay.
pub const FONT_SIZE: u32 = 14;

/// Inset of the metrics block from the viewport's edges, and the spacing of
/// its lines.
pub const METRICS_PAD: i64 = 6 * UNIT;

/// Diameter of the marker at the mouse position.
pub const MARKER_SIZE: i64 = 5 * UNIT;

/// How far the mouse label stands above the mouse position.
pub const MOUSE_LABEL_RISE: i64 = 20 * UNIT;

/// Fractional digits of a coordinate in a label.
pub const COORD_PLACES: u8 = 1;

/// Fractional digits of a size in the metrics block.
pub const SIZE_PLACES: u8 = 0;

/// Fractional digits of a ratio or a scale factor in the metrics block.
pub const FACTOR_PLACES: u8 = 2;

/// The colour of the background.
pub open spec fn background_color() -> Color {
    Color { red: 110, green: 120, blue: 130 }
}

/// The colour of the crosshair, its labels and the metrics block.
pub open spec fn crosshair_color() -> Color {
    Color { red: 500, green: 500, blue: 500 }
}

/// The colour of the mouse label.
pub open spec fn mouse_label_color() -> Color {
    Color { red: 1000, green: 1000, blue: 1000 }
}

/// The centre of the viewport.
pub open spec fn center(v: RectView) -> Point2D {
    point(v.center_x(), v.center_y())
}

/// One grid pass: a line command for each line of the grid.
pub open spec fn grid_commands(v: RectView, step: int, weight: i64) -> Seq<DrawCommandView> {
    grid_segments(v, step, weight).map_values(|l| DrawCommandView::Line(l))
}

/// The crosshair arrow from the centre of the viewport to `end`.
pub open spec fn arrow_to(v: RectView, end: Point2D) -> Arrow {
    Arrow {
        start: center(v),
        end,
        head_length: ARROW_HEAD_LENGTH,
        head_width: ARROW_HEAD_WIDTH,
        round_start_cap: true,
        color: crosshair_color(),
    }
}

/// The four crosshair arrows: to the middle of the top, right, bottom and
/// left edge.
pub open spec fn arrows(v: RectView) -> Seq<DrawCommandView> {
    seq![
        DrawCommandView::Arrow(arrow_to(v, point(v.center_x(), v.top))),
        DrawCommandView::Arrow(arrow_to(v, point(v.right, v.center_y()))),
        DrawCommandView::Arrow(arrow_to(v, point(v.center_x(), v.bottom))),
        DrawCommandView::Arrow(arrow_to(v, point(v.left, v.center_y()))),
    ]
}

/// The label of the origin, a little right of and above it.
pub open spec fn origin_label() -> TextLabelView {
    TextLabelView {
        content: scalar_text(0, COORD_PLACES as nat),
        position: Point2D { x: ORIGIN_LABEL_OFFSET, y: ORIGIN_LABEL_OFFSET },
        box_width: None,
        box_height: None,
        justify: Justify::Center,
        align: VerticalAlign::Middle,
        font_size: FONT_SIZE,
        line_spacing: 0,
        color: crosshair_color(),
    }
}

/// The label of the top or bottom edge: the edge's coordinate, in a box as
/// high as the viewport, right of the centre, against the edge that `align`
/// names.
pub open spec fn row_label(v: RectView, edge: int, align: VerticalAlign) -> TextLabelView {
    TextLabelView {
        content: scalar_text(edge, COORD_PLACES as nat),
        position: point(v.center_x() + LABEL_X_OFFSET, v.center_y()),
        box_width: None,
        box_height: Some(v.height() as i64),
        justify: Justify::Center,
        align,
        font_size: FONT_SIZE,
        line_spacing: 0,
        color: crosshair_color(),
    }
}

/// The label of the left or right edge: the edge's coordinate, in a box as
/// wide as the viewport, above the centre, against the edge that `justify`
/// names.
pub open spec fn column_label(v: RectView, edge: int, justify: Justify) -> TextLabelView {
    TextLabelView {
        content: scalar_text(edge, COORD_PLACES as nat),
        position: point(v.center_x(), v.center_y() + LABEL_Y_OFFSET),
        box_width: Some(v.width() as i64),
        box_height: None,
        justify,
        align: VerticalAlign::Middle,
        font_size: FONT_SIZE,
        line_spacing: 0,
        color: crosshair_color(),
    }
}

/// The five coordinate labels: origin, top, bottom, left, right.
pub open spec fn labels(v: RectView) -> Seq<DrawCommandView> {
    seq![
        DrawCommandView::Text(origin_label()),
        DrawCommandView::Text(row_label(v, v.top, VerticalAlign::Top)),
        DrawCommandView::Text(row_label(v, v.bottom, VerticalAlign::Bottom)),
        DrawCommandView::Text(column_label(v, v.left, Justify::Left)),
        DrawCommandView::Text(column_label(v, v.right, Justify::Right)),
    ]
}

/// The text of the metrics block: size, aspect ratio and scale factor of the
/// window, then of the monitor. Sizes are whole numbers; ratios and scale
/// factors have two fractional digits.
pub open spec fn metrics_text(v: RectView, m: MonitorMetrics) -> Seq<char> {
    "\n        Window size: ["@ + scalar_text(v.width(), SIZE_PLACES as nat) + ", "@ + scalar_text(
        v.height(),
        SIZE_PLACES as nat,
    ) + "]\n        Window ratio: "@ + ratio_text(v.width(), v.height(), FACTOR_PLACES as nat)
        + "\n        Window scale factor: "@ + scalar_text(
        m.window_scale_factor as int,
        FACTOR_PLACES as nat,
    ) + "\n        Monitor size: ["@ + scalar_text(m.width as int, SIZE_PLACES as nat) + ", "@
        + scalar_text(m.height as int, SIZE_PLACES as nat) + "]\n        Monitor ratio: "@
        + ratio_text(m.width as int, m.height as int, FACTOR_PLACES as nat)
        + "\n        Monitor scale factor: "@ + scalar_text(
        m.scale_factor as int,
        FACTOR_PLACES as nat,
    ) + "\n        "@
}

/// The metrics block: its text in the viewport's box inset by the padding,
/// against the bottom left.
pub open spec fn metrics_block(v: RectView, m: MonitorMetrics) -> TextLabelView {
    TextLabelView {
        content: metrics_text(v, m),
        position: center(v),
        box_width: Some(inset_extent(v.width(), METRICS_PAD as int) as i64),
        box_height: Some(inset_extent(v.height(), METRICS_PAD as int) as i64),
        justify: Justify::Left,
        align: VerticalAlign::Bottom,
        font_size: FONT_SIZE,
        line_spacing: METRICS_PAD,
        color: crosshair_color(),
    }
}

/// The marker at the mouse position.
pub open spec fn mouse_marker(mouse: Point2D) -> Ellipse {
    Ellipse { center: mouse, width: MARKER_SIZE, height: MARKER_SIZE }
}

/// The text of the mouse label: both coordinates in square brackets, each
/// with one fractional digit.
pub open spec fn mouse_text(mouse: Point2D) -> Seq<char> {
    seq!['['] + scalar_text(mouse.x as int, COORD_PLACES as nat) + seq![',', ' '] + scalar_text(
        mouse.y as int,
        COORD_PLACES as nat,
    ) + seq![']']
}

/// The mouse label, above the mouse position.
pub open spec fn mouse_label(mouse: Point2D) -> TextLabelView {
    TextLabelView {
        content: mouse_text(mouse),
        position: point(mouse.x as int, mouse.y + MOUSE_LABEL_RISE),
        box_width: None,
        box_height: None,
        justify: Justify::Center,
        align: VerticalAlign::Middle,
        font_size: FONT_SIZE,
        line_spacing: 0,
        color: mouse_label_color(),
    }
}

/// What the overlay shows whether or not a monitor is known: the background,
/// the coarse grid, the fine grid, the four arrows and the five labels.
pub open spec fn base_commands(v: RectView) -> Seq<DrawCommandView> {
    seq![DrawCommandView::Background(background_color())] + grid_commands(
        v,
        COARSE_STEP as int,
        COARSE_WEIGHT,
    ) + grid_commands(v, FINE_STEP as int, FINE_WEIGHT) + arrows(v) + labels(v)
}

/// What a known monitor adds: the metrics block, the mouse marker and the
/// mouse label.
pub open spec fn monitor_commands(v: RectView, m: MonitorMetrics, mouse: Point2D) -> Seq<
    DrawCommandView,
> {
    seq![
        DrawCommandView::Text(metrics_block(v, m)),
        DrawCommandView::Ellipse(mouse_marker(mouse)),
        DrawCommandView::Text(mouse_label(mouse)),
    ]
}

/// The whole overlay, back to front.
pub open spec fn overlay(v: RectView, monitor: Option<MonitorMetrics>, mouse: Point2D) -> Seq<
    DrawCommandView,
> {
    match monitor {
        Some(m) => base_commands(v) + monitor_commands(v, m, mouse),
        None => base_commands(v),
    }
}

/// In a well-formed viewport every coordinate and extent of the overlay fits
/// the scalar type: the centre, the ends of the arrows, the positions and
/// boxes of the labels and of the metrics block are the numbers that their
/// definitions name.
pub proof fn lemma_scene_fits(v: RectView)
    requires
        v.wf(),
    ensures
        center(v).x == v.center_x() && center(v).y == v.center_y(),
        v.left <= v.center_x() < v.right && v.bottom <= v.center_y() < v.top,
        point(v.center_x(), v.top) == (Point2D { x: center(v).x, y: v.top as i64 }),
        point(v.left, v.center_y()).x == v.left && point(v.right, v.center_y()).x == v.right,
        point(v.center_x(), v.top).y == v.top && point(v.center_x(), v.bottom).y == v.bottom,
        row_label(v, v.top, VerticalAlign::Top).position.x == v.center_x() + LABEL_X_OFFSET,
        row_label(v, v.top, VerticalAlign::Top).position.y == v.center_y(),
        row_label(v, v.top, VerticalAlign::Top).box_height == Some(v.height() as i64),
        v.height() as i64 == v.height(),
        column_label(v, v.left, Justify::Left).position.x == v.center_x(),
        column_label(v, v.left, Justify::Left).position.y == v.center_y() + LABEL_Y_OFFSET,
        v.width() as i64 == v.width(),
        inset_extent(v.width(), METRICS_PAD as int) as i64 == inset_extent(
            v.width(),
            METRICS_PAD as int,
        ),
        inset_extent(v.height(), METRICS_PAD as int) as i64 == inset_extent(
            v.height(),
            METRICS_PAD as int,
        ),
{
}

} // verus!
