//! Composition of the overlay for one frame.

use crate::command::{
    views, Arrow, Color, DrawCommand, DrawCommandView, Ellipse, Justify, OverlayFrame, TextLabel,
    VerticalAlign,
};
use crate::decimal::{format_ratio, format_scalar};
use crate::geom::{Point2D, Rect, RectView};
use crate::grid::generate;
use crate::monitor::MonitorMetrics;
use crate::scene;
use crate::scene::{
    ARROW_HEAD_LENGTH, ARROW_HEAD_WIDTH, COARSE_STEP, COARSE_WEIGHT, COORD_PLACES, FACTOR_PLACES,
    FINE_STEP, FINE_WEIGHT, FONT_SIZE, LABEL_X_OFFSET, LABEL_Y_OFFSET, MARKER_SIZE, METRICS_PAD,
    MOUSE_LABEL_RISE, ORIGIN_LABEL_OFFSET, SIZE_PLACES,
};
use vstd::prelude::*;
use vstd::string::*;

verus! {

fn background_color() -> (c: Color)
    ensures
        c == scene::background_color(),
{
    Color { red: 110, green: 120, blue: 130 }
}

fn crosshair_color() -> (c: Color)
    ensures
        c == scene::crosshair_color(),
{
    Color { red: 500, green: 500, blue: 500 }
}

fn mouse_label_color() -> (c: Color)
    ensures
        c == scene::mouse_label_color(),
{
    Color { red: 1000, green: 1000, blue: 1000 }
}

fn emit(commands: &mut Vec<DrawCommand>, command: DrawCommand)
    ensures
        views(final(commands)@) == views(old(commands)@).push(command@),
{
    commands.push(command);
    assert(views(commands@) =~= views(old(commands)@).push(command@));
}

fn emit_grid(commands: &mut Vec<DrawCommand>, viewport: Rect, step: i64, weight: i64)
    requires
        step > 0,
        weight >= 0,
    ensures
        views(final(commands)@) == views(old(commands)@) + scene::grid_commands(
            viewport@,
            step as int,
            weight,
        ),
{
    let lines = generate(viewport, step, weight);
    let ghost before = views(commands@);
    let ghost pass = scene::grid_commands(viewport@, step as int, weight);
    let mut i: usize = 0;
    assert(views(commands@) =~= before + pass.take(0));
    while i < lines.len()
        invariant
            i <= lines.len(),
            pass.len() == lines.len(),
            forall|j: int| 0 <= j < pass.len() ==> pass[j] == DrawCommandView::Line(lines[j]),
            views(commands@) == before + pass.take(i as int),
        decreases lines.len() - i,
    {
        emit(commands, DrawCommand::Line(lines[i]));
        assert(pass.take(i + 1) =~= pass.take(i as int).push(pass[i as int]));
        assert(views(commands@) =~= before + pass.take(i + 1));
        i = i + 1;
    }
    assert(pass.take(i as int) =~= pass);
}

fn emit_arrow(commands: &mut Vec<DrawCommand>, viewport: Rect, end: Point2D)
    ensures
        views(final(commands)@) == views(old(commands)@).push(
            DrawCommandView::Arrow(scene::arrow_to(viewport@, end)),
        ),
{
    emit(
        commands,
        DrawCommand::Arrow(
            Arrow {
                start: viewport.center(),
                end,
                head_length: ARROW_HEAD_LENGTH,
                head_width: ARROW_HEAD_WIDTH,
                round_start_cap: true,
                color: crosshair_color(),
            },
        ),
    );
}

fn origin_label() -> (label: TextLabel)
    ensures
        label@ == scene::origin_label(),
{
    TextLabel {
        content: format_scalar(0, COORD_PLACES),
        position: Point2D { x: ORIGIN_LABEL_OFFSET, y: ORIGIN_LABEL_OFFSET },
        box_width: None,
        box_height: None,
        justify: Justify::Center,
        align: VerticalAlign::Middle,
        font_size: FONT_SIZE,
        line_spacing: 0,
        color: crosshair_color(),
    }
}

fn row_label(viewport: Rect, edge: i64, align: VerticalAlign) -> (label: TextLabel)
    ensures
        label@ == scene::row_label(viewport@, edge as int, align),
{
    let c = viewport.center();
    TextLabel {
        content: format_scalar(edge, COORD_PLACES),
        position: Point2D { x: c.x + LABEL_X_OFFSET, y: c.y },
        box_width: None,
        box_height: Some(viewport.height()),
        justify: Justify::Center,
        align,
        font_size: FONT_SIZE,
        line_spacing: 0,
        color: crosshair_color(),
    }
}

fn column_label(viewport: Rect, edge: i64, justify: Justify) -> (label: TextLabel)
    ensures
        label@ == scene::column_label(viewport@, edge as int, justify),
{
    let c = viewport.center();
    TextLabel {
        content: format_scalar(edge, COORD_PLACES),
        position: Point2D { x: c.x, y: c.y + LABEL_Y_OFFSET },
        box_width: Some(viewport.width()),
        box_height: None,
        justify,
        align: VerticalAlign::Middle,
        font_size: FONT_SIZE,
        line_spacing: 0,
        color: crosshair_color(),
    }
}

/// The text of the metrics block for a viewport on a monitor.
pub fn metrics_text(viewport: Rect, monitor: MonitorMetrics) -> (text: String)
    ensures
        text@ == scene::metrics_text(viewport@, monitor),
{
    let w = viewport.width();
    let h = viewport.height();
    let mut text = String::from_str("\n        Window size: [");
    text.append(format_scalar(w, SIZE_PLACES).as_str());
    text.append(", ");
    text.append(format_scalar(h, SIZE_PLACES).as_str());
    text.append("]\n        Window ratio: ");
    text.append(format_ratio(w, h, FACTOR_PLACES).as_str());
    text.append("\n        Window scale factor: ");
    text.append(format_scalar(monitor.window_scale_factor, FACTOR_PLACES).as_str());
    text.append("\n        Monitor size: [");
    text.append(format_scalar(monitor.width, SIZE_PLACES).as_str());
    text.append(", ");
    text.append(format_scalar(monitor.height, SIZE_PLACES).as_str());
    text.append("]\n        Monitor ratio: ");
    text.append(format_ratio(monitor.width, monitor.height, FACTOR_PLACES).as_str());
    text.append("\n        Monitor scale factor: ");
    text.append(format_scalar(monitor.scale_factor, FACTOR_PLACES).as_str());
    text.append("\n        ");
    text
}

/// The text of the mouse label for a mouse position.
pub fn mouse_text(mouse: Point2D) -> (text: String)
    ensures
        text@ == scene::mouse_text(mouse),
{
    proof {
        reveal_strlit("[");
        reveal_strlit(", ");
        reveal_strlit("]");
    }
    let mut text = String::from_str("[");
    text.append(format_scalar(mouse.x, COORD_PLACES).as_str());
    text.append(", ");
    text.append(format_scalar(mouse.y, COORD_PLACES).as_str());
    text.append("]");
    assert(text@ =~= scene::mouse_text(mouse));
    text
}

fn metrics_block(viewport: Rect, monitor: MonitorMetrics) -> (label: TextLabel)
    ensures
        label@ == scene::metrics_block(viewport@, monitor),
{
    TextLabel {
        content: metrics_text(viewport, monitor),
        position: viewport.center(),
        box_width: Some(viewport.inset_width(METRICS_PAD)),
        box_height: Some(viewport.inset_height(METRICS_PAD)),
        justify: Justify::Left,
        align: VerticalAlign::Bottom,
        font_size: FONT_SIZE,
        line_spacing: METRICS_PAD,
        color: crosshair_color(),
    }
}

fn mouse_label(mouse: Point2D) -> (label: TextLabel)
    requires
        mouse.y + MOUSE_LABEL_RISE <= i64::MAX,
    ensures
        label@ == scene::mouse_label(mouse),
{
    TextLabel {
        content: mouse_text(mouse),
        position: Point2D { x: mouse.x, y: mouse.y + MOUSE_LABEL_RISE },
        box_width: None,
        box_height: None,
        justify: Justify::Center,
        align: VerticalAlign::Middle,
        font_size: FONT_SIZE,
        line_spacing: 0,
        color: mouse_label_color(),
    }
}

fn emit_arrows(commands: &mut Vec<DrawCommand>, viewport: Rect)
    ensures
        views(final(commands)@) == views(old(commands)@) + scene::arrows(viewport@),
{
    emit_arrow(commands, viewport, viewport.mid_top());
    emit_arrow(commands, viewport, viewport.mid_right());
    emit_arrow(commands, viewport, viewport.mid_bottom());
    emit_arrow(commands, viewport, viewport.mid_left());
    assert(views(commands@) =~= views(old(commands)@) + scene::arrows(viewport@));
}

fn emit_labels(commands: &mut Vec<DrawCommand>, viewport: Rect)
    ensures
        views(final(commands)@) == views(old(commands)@) + scene::labels(viewport@),
{
    let top = row_label(viewport, viewport.top(), VerticalAlign::Top);
    let bottom = row_label(viewport, viewport.bottom(), VerticalAlign::Bottom);
    let left = column_label(viewport, viewport.left(), Justify::Left);
    let right = column_label(viewport, viewport.right(), Justify::Right);
    emit(commands, DrawCommand::Text(origin_label()));
    emit(commands, DrawCommand::Text(top));
    emit(commands, DrawCommand::Text(bottom));
    emit(commands, DrawCommand::Text(left));
    emit(commands, DrawCommand::Text(right));
    assert(views(commands@) =~= views(old(commands)@) + scene::labels(viewport@));
}

fn emit_monitor(
    commands: &mut Vec<DrawCommand>,
    viewport: Rect,
    monitor: MonitorMetrics,
    mouse: Point2D,
)
    requires
        mouse.y + MOUSE_LABEL_RISE <= i64::MAX,
    ensures
        views(final(commands)@) == views(old(commands)@) + scene::monitor_commands(
            viewport@,
            monitor,
            mouse,
        ),
{
    let block = metrics_block(viewport, monitor);
    let marker = Ellipse { center: mouse, width: MARKER_SIZE, height: MARKER_SIZE };
    let label = mouse_label(mouse);
    emit(commands, DrawCommand::Text(block));
    emit(commands, DrawCommand::Ellipse(marker));
    emit(commands, DrawCommand::Text(label));
    assert(views(commands@) =~= views(old(commands)@) + scene::monitor_commands(
        viewport@,
        monitor,
        mouse,
    ));
}

/// The overlay of one frame: the background, the coarse and the fine grid,
/// the four crosshair arrows and the five coordinate labels; and, where the
/// monitor is known, the metrics block, the mouse marker and the mouse label.
pub fn compose(viewport: Rect, monitor: Option<MonitorMetrics>, mouse: Point2D) -> (frame:
    OverlayFrame)
    requires
        monitor.is_some() ==> mouse.y + MOUSE_LABEL_RISE <= i64::MAX,
    ensures
        frame@ == scene::overlay(viewport@, monitor, mouse),
{
    let mut commands: Vec<DrawCommand> = Vec::new();
    assert(views(commands@) =~= Seq::<DrawCommandView>::empty());
    emit(&mut commands, DrawCommand::Background(background_color()));
    assert(views(commands@) =~= seq![DrawCommandView::Background(scene::background_color())]);
    emit_grid(&mut commands, viewport, COARSE_STEP, COARSE_WEIGHT);
    emit_grid(&mut commands, viewport, FINE_STEP, FINE_WEIGHT);
    emit_arrows(&mut commands, viewport);
    emit_labels(&mut commands, viewport);
    if let Some(m) = monitor {
        emit_monitor(&mut commands, viewport, m, mouse);
    }
    OverlayFrame { commands }
}

/// As [`compose`], for callers that cannot vouch for the mouse position: the
/// frame is withheld where the monitor is known and the mouse is so high that
/// its label would leave the range of coordinates.
pub fn try_compose(viewport: Rect, monitor: Option<MonitorMetrics>, mouse: Point2D) -> (frame:
    Option<OverlayFrame>)
    ensures
        frame.is_some() <==> (monitor.is_some() ==> mouse.y + MOUSE_LABEL_RISE <= i64::MAX),
        frame.is_some() ==> frame.unwrap()@ == scene::overlay(viewport@, monitor, mouse),
{
    if monitor.is_some() && mouse.y > i64::MAX - MOUSE_LABEL_RISE {
        None
    } else {
        Some(compose(viewport, monitor, mouse))
    }
}

/// The overlay is a function of the viewport, the monitor metrics and the
/// mouse position: two frames composed from the same three hold the same
/// commands in the same order, and every text in them is the same character
/// for character.
pub proof fn lemma_compose_is_repeatable(
    v: RectView,
    monitor: Option<MonitorMetrics>,
    mouse: Point2D,
    first: OverlayFrame,
    second: OverlayFrame,
)
    requires
        first@ == scene::overlay(v, monitor, mouse),
        second@ == scene::overlay(v, monitor, mouse),
    ensures
        first.commands.len() == second.commands.len(),
        forall|i: int| 0 <= i < first.commands.len() ==> first.commands[i]@ == second.commands[i]@,
        forall|i: int, a: TextLabel, b: TextLabel|
            0 <= i < first.commands.len() && first.commands[i] == DrawCommand::Text(a)
                && second.commands[i] == DrawCommand::Text(b) ==> a.content@ == b.content@,
{
    assert(first.commands@.len() == first@.len());
    assert(second.commands@.len() == second@.len());
    assert forall|i: int| 0 <= i < first.commands.len() implies first.commands[i]@
        == second.commands[i]@ by {
        assert(first@[i] == first.commands[i]@);
        assert(second@[i] == second.commands[i]@);
    }
    assert forall|i: int, a: TextLabel, b: TextLabel|
        0 <= i < first.commands.len() && first.commands[i] == DrawCommand::Text(a)
            && second.commands[i] == DrawCommand::Text(b) implies a.content@ == b.content@ by {
        assert(first.commands[i]@ == second.commands[i]@);
    }
}

/// Without a monitor the overlay is the background, the two grid passes, the
/// four arrows and the five coordinate labels, and nothing else: it holds no
/// ellipse, and every text in it is one of the five labels.
pub proof fn lemma_overlay_without_monitor(v: RectView, mouse: Point2D)
    ensures
        scene::overlay(v, None, mouse) == seq![
            DrawCommandView::Background(scene::background_color()),
        ] + scene::grid_commands(v, COARSE_STEP as int, COARSE_WEIGHT) + scene::grid_commands(
            v,
            FINE_STEP as int,
            FINE_WEIGHT,
        ) + scene::arrows(v) + scene::labels(v),
        scene::arrows(v).len() == 4,
        scene::labels(v).len() == 5,
        forall|i: int|
            0 <= i < scene::overlay(v, None, mouse).len() ==> !(#[trigger] scene::overlay(
                v,
                None,
                mouse,
            )[i] is Ellipse),
        forall|i: int|
            0 <= i < scene::overlay(v, None, mouse).len() && #[trigger] scene::overlay(
                v,
                None,
                mouse,
            )[i] is Text ==> {
                let first_label = scene::overlay(v, None, mouse).len() - 5;
                i >= first_label && scene::overlay(v, None, mouse)[i] == scene::labels(v)[i
                    - first_label]
            },
{
    let all = scene::overlay(v, None, mouse);
    let back = seq![DrawCommandView::Background(scene::background_color())];
    let coarse = scene::grid_commands(v, COARSE_STEP as int, COARSE_WEIGHT);
    let fine = scene::grid_commands(v, FINE_STEP as int, FINE_WEIGHT);
    let cross = scene::arrows(v);
    let marks = scene::labels(v);
    assert(all == back + coarse + fine + cross + marks);
    assert forall|i: int| 0 <= i < all.len() implies !(#[trigger] all[i] is Ellipse) && (all[i]
         is Text ==> i >= all.len() - 5 && all[i] == marks[i - (all.len() - 5)]) by {
        if i < 1 {
            assert(all[i] == back[i]);
        } else if i < 1 + coarse.len() {
            assert(all[i] == coarse[i - 1]);
        } else if i < 1 + coarse.len() + fine.len() {
            assert(all[i] == fine[i - 1 - coarse.len()]);
        } else if i < 1 + coarse.len() + fine.len() + 4 {
            assert(all[i] == cross[i - 1 - coarse.len() - fine.len()]);
        } else {
            assert(all[i] == marks[i - 1 - coarse.len() - fine.len() - 4]);
        }
    }
}

/// A known monitor adds three commands behind everything else, and changes
/// nothing before them: the metrics block, the marker at the mouse position
/// and the mouse label.
pub proof fn lemma_monitor_adds_three_commands(v: RectView, m: MonitorMetrics, mouse: Point2D)
    ensures
        scene::overlay(v, Some(m), mouse) == scene::overlay(v, None, mouse) + seq![
            DrawCommandView::Text(scene::metrics_block(v, m)),
            DrawCommandView::Ellipse(scene::mouse_marker(mouse)),
            DrawCommandView::Text(scene::mouse_label(mouse)),
        ],
        scene::overlay(v, Some(m), mouse).len() == scene::overlay(v, None, mouse).len() + 3,
        scene::mouse_marker(mouse).center == mouse,
{
}

} // verus!
