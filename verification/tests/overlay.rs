use viewport_overlay::command::{
    Arrow, Color, DrawCommand, Ellipse, Justify, OverlayFrame, TextLabel, VerticalAlign,
};
use viewport_overlay::geom::{Point2D, Rect};
use viewport_overlay::grid::generate;
use viewport_overlay::monitor::MonitorMetrics;
use viewport_overlay::overlay::{compose, metrics_text, mouse_text, try_compose};
use viewport_overlay::scene::{
    ARROW_HEAD_LENGTH, ARROW_HEAD_WIDTH, COARSE_STEP, COARSE_WEIGHT, FINE_STEP, FINE_WEIGHT,
    FONT_SIZE, MOUSE_LABEL_RISE,
};

const GRAY: Color = Color { red: 500, green: 500, blue: 500 };

fn window() -> Rect {
    Rect::from_edges(-400_000, 400_000, -300_000, 300_000).expect("edges in order")
}

fn monitor() -> MonitorMetrics {
    MonitorMetrics {
        window_scale_factor: 2_000,
        scale_factor: 1_000,
        width: 1_920_000,
        height: 1_080_000,
    }
}

fn mouse() -> Point2D {
    Point2D { x: 12_340, y: -5_600 }
}

fn texts(frame: &OverlayFrame) -> Vec<TextLabel> {
    let mut found = Vec::new();
    for c in &frame.commands {
        if let DrawCommand::Text(t) = c {
            found.push(t.clone());
        }
    }
    found
}

fn arrows(frame: &OverlayFrame) -> Vec<Arrow> {
    let mut found = Vec::new();
    for c in &frame.commands {
        if let DrawCommand::Arrow(a) = c {
            found.push(*a);
        }
    }
    found
}

fn ellipses(frame: &OverlayFrame) -> Vec<Ellipse> {
    let mut found = Vec::new();
    for c in &frame.commands {
        if let DrawCommand::Ellipse(e) = c {
            found.push(*e);
        }
    }
    found
}

fn label(content: &str, x: i64, y: i64) -> TextLabel {
    TextLabel {
        content: content.to_string(),
        position: Point2D { x, y },
        box_width: None,
        box_height: None,
        justify: Justify::Center,
        align: VerticalAlign::Middle,
        font_size: 14,
        line_spacing: 0,
        color: GRAY,
    }
}

#[test]
fn overlay_constants() {
    assert_eq!(COARSE_STEP, 100_000);
    assert_eq!(COARSE_WEIGHT, 1_000);
    assert_eq!(FINE_STEP, 25_000);
    assert_eq!(FINE_WEIGHT, 500);
    assert_eq!(ARROW_HEAD_LENGTH, 16_000);
    assert_eq!(ARROW_HEAD_WIDTH, 8_000);
    assert_eq!(FONT_SIZE, 14);
    assert_eq!(MOUSE_LABEL_RISE, 20_000);
}

#[test]
fn background_comes_first() {
    let frame = compose(window(), None, mouse());
    assert_eq!(
        frame.commands[0],
        DrawCommand::Background(Color { red: 110, green: 120, blue: 130 })
    );
    let fills = frame.commands.iter().filter(|c| matches!(c, DrawCommand::Background(_))).count();
    assert_eq!(fills, 1);
}

#[test]
fn both_grid_passes_follow_the_background() {
    let frame = compose(window(), None, mouse());
    let coarse = generate(window(), 100_000, 1_000);
    let fine = generate(window(), 25_000, 500);
    assert_eq!(coarse.len(), 14);
    assert_eq!(fine.len(), 56);
    for (i, l) in coarse.iter().chain(fine.iter()).enumerate() {
        assert_eq!(frame.commands[1 + i], DrawCommand::Line(*l));
    }
    let lines = frame.commands.iter().filter(|c| matches!(c, DrawCommand::Line(_))).count();
    assert_eq!(lines, 70);
}

#[test]
fn without_monitor_only_grid_arrows_and_labels() {
    let frame = compose(window(), None, mouse());
    assert_eq!(frame.commands.len(), 1 + 14 + 56 + 4 + 5);
    assert_eq!(arrows(&frame).len(), 4);
    assert_eq!(texts(&frame).len(), 5);
    assert_eq!(ellipses(&frame).len(), 0);
    for t in texts(&frame) {
        assert!(!t.content.contains("Window"));
        assert!(!t.content.contains("Monitor"));
        assert!(!t.content.contains('['));
    }
}

#[test]
fn with_monitor_three_more_commands() {
    let bare = compose(window(), None, mouse());
    let full = compose(window(), Some(monitor()), mouse());
    assert_eq!(full.commands.len(), bare.commands.len() + 3);
    assert_eq!(full.commands[..bare.commands.len()], bare.commands[..]);
    let n = bare.commands.len();
    assert!(matches!(full.commands[n], DrawCommand::Text(_)));
    assert!(matches!(full.commands[n + 1], DrawCommand::Ellipse(_)));
    assert!(matches!(full.commands[n + 2], DrawCommand::Text(_)));
}

#[test]
fn four_arrows_from_the_centre_to_the_edge_midpoints() {
    let frame = compose(window(), None, mouse());
    let to = |x: i64, y: i64| Arrow {
        start: Point2D { x: 0, y: 0 },
        end: Point2D { x, y },
        head_length: 16_000,
        head_width: 8_000,
        round_start_cap: true,
        color: GRAY,
    };
    assert_eq!(
        arrows(&frame),
        vec![to(0, 300_000), to(400_000, 0), to(0, -300_000), to(-400_000, 0)]
    );
}

#[test]
fn arrows_of_a_viewport_beside_the_origin() {
    let r = Rect::from_edges(100_000, 300_000, -50_000, 150_000).expect("edges in order");
    let frame = compose(r, None, mouse());
    let found = arrows(&frame);
    assert_eq!(found.len(), 4);
    for a in &found {
        assert_eq!(a.start, Point2D { x: 200_000, y: 50_000 });
    }
    assert_eq!(found[0].end, Point2D { x: 200_000, y: 150_000 });
    assert_eq!(found[1].end, Point2D { x: 300_000, y: 50_000 });
    assert_eq!(found[2].end, Point2D { x: 200_000, y: -50_000 });
    assert_eq!(found[3].end, Point2D { x: 100_000, y: 50_000 });
}

#[test]
fn five_coordinate_labels() {
    let frame = compose(window(), None, mouse());
    let found = texts(&frame);
    assert_eq!(found.len(), 5);
    assert_eq!(found[0], label("0.0", 15_000, 15_000));
    assert_eq!(
        found[1],
        TextLabel {
            box_height: Some(600_000),
            align: VerticalAlign::Top,
            ..label("300.0", 30_000, 0)
        }
    );
    assert_eq!(
        found[2],
        TextLabel {
            box_height: Some(600_000),
            align: VerticalAlign::Bottom,
            ..label("-300.0", 30_000, 0)
        }
    );
    assert_eq!(
        found[3],
        TextLabel {
            box_width: Some(800_000),
            justify: Justify::Left,
            ..label("-400.0", 0, 20_000)
        }
    );
    assert_eq!(
        found[4],
        TextLabel {
            box_width: Some(800_000),
            justify: Justify::Right,
            ..label("400.0", 0, 20_000)
        }
    );
}

#[test]
fn edge_labels_round_to_one_place() {
    let r = Rect::from_edges(-512_340, 512_360, -383_950, 384_050).expect("edges in order");
    let found = texts(&compose(r, None, mouse()));
    assert_eq!(found[1].content, "384.0");
    assert_eq!(found[2].content, "-384.0");
    assert_eq!(found[3].content, "-512.3");
    assert_eq!(found[4].content, "512.4");
    assert_eq!(found[1].position, Point2D { x: 30_010, y: 50 });
    assert_eq!(found[3].position, Point2D { x: 10, y: 20_050 });
}

#[test]
fn metrics_text_of_the_window() {
    let expected = "\n        Window size: [800, 600]\n        Window ratio: 1.33\n        \
                    Window scale factor: 2.00\n        Monitor size: [1920, 1080]\n        \
                    Monitor ratio: 1.78\n        Monitor scale factor: 1.00\n        ";
    assert_eq!(metrics_text(window(), monitor()), expected);
}

#[test]
fn metrics_text_rounds_each_value() {
    let r = Rect::from_edges(-512_250, 512_250, -384_000, 384_500).expect("edges in order");
    let m = MonitorMetrics {
        window_scale_factor: 1_255,
        scale_factor: 1_245,
        width: 2_559_600,
        height: 1_439_400,
    };
    let expected = "\n        Window size: [1024, 768]\n        Window ratio: 1.33\n        \
                    Window scale factor: 1.26\n        Monitor size: [2560, 1439]\n        \
                    Monitor ratio: 1.78\n        Monitor scale factor: 1.24\n        ";
    assert_eq!(metrics_text(r, m), expected);
}

#[test]
fn metrics_text_of_a_monitor_without_height() {
    let m = MonitorMetrics { window_scale_factor: 1_000, scale_factor: 1_000, width: 5_000, height: 0 };
    let text = metrics_text(window(), m);
    assert!(text.contains("Monitor size: [5, 0]\n"));
    assert!(text.contains("Monitor ratio: inf\n"));
    let none = MonitorMetrics { width: 0, ..m };
    assert!(metrics_text(window(), none).contains("Monitor ratio: NaN\n"));
}

#[test]
fn metrics_block_sits_bottom_left_inside_the_padding() {
    let frame = compose(window(), Some(monitor()), mouse());
    let found = texts(&frame);
    assert_eq!(found.len(), 7);
    assert_eq!(
        found[5],
        TextLabel {
            content: metrics_text(window(), monitor()),
            position: Point2D { x: 0, y: 0 },
            box_width: Some(788_000),
            box_height: Some(588_000),
            justify: Justify::Left,
            align: VerticalAlign::Bottom,
            font_size: 14,
            line_spacing: 6_000,
            color: GRAY,
        }
    );
}

#[test]
fn metrics_block_in_a_tiny_viewport() {
    let r = Rect::from_edges(-2_000, 2_000, -5_000, 5_000).expect("edges in order");
    let found = texts(&compose(r, Some(monitor()), mouse()));
    assert_eq!(found[5].box_width, Some(4_000));
    assert_eq!(found[5].box_height, Some(2_000));
}

#[test]
fn mouse_marker_is_centred_on_the_mouse() {
    let frame = compose(window(), Some(monitor()), mouse());
    assert_eq!(
        ellipses(&frame),
        vec![Ellipse { center: Point2D { x: 12_340, y: -5_600 }, width: 5_000, height: 5_000 }]
    );
}

#[test]
fn mouse_label_text() {
    let frame = compose(window(), Some(monitor()), mouse());
    let found = texts(&frame);
    assert_eq!(found[6].content, "[12.3, -5.6]");
    assert_eq!(mouse_text(mouse()), "[12.3, -5.6]");
}

#[test]
fn mouse_label_stands_above_the_mouse() {
    let frame = compose(window(), Some(monitor()), mouse());
    let last = frame.commands.last().expect("a frame is never empty");
    assert_eq!(
        *last,
        DrawCommand::Text(TextLabel {
            color: Color { red: 1000, green: 1000, blue: 1000 },
            ..label("[12.3, -5.6]", 12_340, 14_400)
        })
    );
}

#[test]
fn mouse_text_of_other_positions() {
    assert_eq!(mouse_text(Point2D { x: 0, y: 0 }), "[0.0, 0.0]");
    assert_eq!(mouse_text(Point2D { x: -399_960, y: 299_949 }), "[-400.0, 299.9]");
    assert_eq!(mouse_text(Point2D { x: 50, y: -50 }), "[0.0, -0.0]");
}

#[test]
fn mouse_label_at_the_highest_position() {
    let top = Point2D { x: i64::MIN, y: i64::MAX - MOUSE_LABEL_RISE };
    let frame = compose(window(), Some(monitor()), top);
    let found = texts(&frame);
    assert_eq!(found[6].position, Point2D { x: i64::MIN, y: i64::MAX });
    assert_eq!(found[6].content, "[-9223372036854775.8, 9223372036854755.8]");
}

#[test]
fn compose_twice_gives_the_same_frame() {
    let first = compose(window(), Some(monitor()), mouse());
    let second = compose(window(), Some(monitor()), mouse());
    assert_eq!(first, second);
    let a = texts(&first);
    let b = texts(&second);
    assert_eq!(a.len(), b.len());
    for (x, y) in a.iter().zip(b.iter()) {
        assert_eq!(x.content.as_bytes(), y.content.as_bytes());
    }
}

#[test]
fn every_text_has_the_same_font_size() {
    let frame = compose(window(), Some(monitor()), mouse());
    for t in texts(&frame) {
        assert_eq!(t.font_size, 14);
    }
}

#[test]
fn try_compose_agrees_with_compose() {
    assert_eq!(
        try_compose(window(), Some(monitor()), mouse()),
        Some(compose(window(), Some(monitor()), mouse()))
    );
    assert_eq!(try_compose(window(), None, mouse()), Some(compose(window(), None, mouse())));
}

#[test]
fn try_compose_withholds_a_label_out_of_range() {
    let high = Point2D { x: 0, y: i64::MAX - MOUSE_LABEL_RISE + 1 };
    assert_eq!(try_compose(window(), Some(monitor()), high), None);
    assert_eq!(try_compose(window(), Some(monitor()), Point2D { x: 0, y: i64::MAX }), None);
    let at_limit = Point2D { x: 0, y: i64::MAX - MOUSE_LABEL_RISE };
    assert!(try_compose(window(), Some(monitor()), at_limit).is_some());
}

#[test]
fn without_monitor_any_mouse_position_will_do() {
    let high = Point2D { x: i64::MAX, y: i64::MAX };
    let frame = try_compose(window(), None, high).expect("the mouse is not drawn");
    assert_eq!(frame, compose(window(), None, mouse()));
}
