//! The draw commands that an overlay is made of, and their mathematical views.

use crate::geom::{LineSegment, Point2D};
use vstd::prelude::*;

verus! {

/// A colour by its red, green and blue intensity, each in thousandths of
/// full intensity.
#[derive(Clone, Copy, Debug, PartialEq, Eq, Structural)]
pub struct Color {
    pub red: u16,
    pub green: u16,
    pub blue: u16,
}

/// Where the lines of a text sit between the left and right of its box.
#[derive(Clone, Copy, Debug, PartialEq, Eq, Structural)]
pub enum Justify {
    Left,
    Center,
    Right,
}

/// Where a text sits between the bottom and top of its box.
#[derive(Clone, Copy, Debug, PartialEq, Eq, Structural)]
pub enum VerticalAlign {
    Top,
    Middle,
    Bottom,
}

/// An arrow from `start` to `end` with a head at `end`.
#[derive(Clone, Copy, Debug, PartialEq, Eq, Structural)]
pub struct Arrow {
    pub start: Point2D,
    pub end: Point2D,
    pub head_length: i64,
    pub head_width: i64,
    pub round_start_cap: bool,
    pub color: Color,
}

/// A filled ellipse, `width` by `height`, around `center`.
#[derive(Clone, Copy, Debug, PartialEq, Eq, Structural)]
pub struct Ellipse {
    pub center: Point2D,
    pub width: i64,
    pub height: i64,
}

/// A piece of text laid out in a box around `position`. An extent of the box
/// that is `None` is left to the rasterizer.
#[derive(Clone, Debug, PartialEq, Eq)]
pub struct TextLabel {
    pub content: String,
    pub position: Point2D,
    pub box_width: Option<i64>,
    pub box_height: Option<i64>,
    pub justify: Justify,
    pub align: VerticalAlign,
    pub font_size: u32,
    pub line_spacing: i64,
    pub color: Color,
}

/// A [`TextLabel`] with its content as a sequence of characters.
pub struct TextLabelView {
    pub content: Seq<char>,
    pub position: Point2D,
    pub box_width: Option<i64>,
    pub box_height: Option<i64>,
    pub justify: Justify,
    pub align: VerticalAlign,
    pub font_size: u32,
    pub line_spacing: i64,
    pub color: Color,
}

impl View for TextLabel {
    type V = TextLabelView;

    open spec fn view(&self) -> TextLabelView {
        TextLabelView {
            content: self.content@,
            position: self.position,
            box_width: self.box_width,
            box_height: self.box_height,
            justify: self.justify,
            align: self.align,
            font_size: self.font_size,
            line_spacing: self.line_spacing,
            color: self.color,
        }
    }
}

/// One step of painting an overlay.
#[derive(Clone, Debug, PartialEq, Eq)]
pub enum DrawCommand {
    /// Fill the whole surface.
    Background(Color),
    Line(LineSegment),
    Arrow(Arrow),
    Text(TextLabel),
    Ellipse(Ellipse),
}

/// A [`DrawCommand`] with any text as a sequence of characters.
pub enum DrawCommandView {
    Background(Color),
    Line(LineSegment),
    Arrow(Arrow),
    Text(TextLabelView),
    Ellipse(Ellipse),
}

impl View for DrawCommand {
    type V = DrawCommandView;

    open spec fn view(&self) -> DrawCommandView {
        match *self {
            DrawCommand::Background(c) => DrawCommandView::Background(c),
            DrawCommand::Line(l) => DrawCommandView::Line(l),
            DrawCommand::Arrow(a) => DrawCommandView::Arrow(a),
            DrawCommand::Text(t) => DrawCommandView::Text(t@),
            DrawCommand::Ellipse(e) => DrawCommandView::Ellipse(e),
        }
    }
}

/// The views of a sequence of commands, in the same order.
pub open spec fn views(commands: Seq<DrawCommand>) -> Seq<DrawCommandView> {
    commands.map_values(|c: DrawCommand| c@)
}

/// Everything that one composition pass draws, back to front.
#[derive(Clone, Debug, PartialEq, Eq)]
pub struct OverlayFrame {
    pub commands: Vec<DrawCommand>,
}

impl View for OverlayFrame {
    type V = Seq<DrawCommandView>;

    open spec fn view(&self) -> Seq<DrawCommandView> {
        views(self.commands@)
    }
}

} // verus!
