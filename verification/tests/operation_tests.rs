use iced_layout_inspector::{Bounds, BoundsChecks, LayoutDumper, LayoutInspector, ViewportLabel, WidgetKind};

const VIEWPORT_WIDTH: f32 = 200.0;
const VIEWPORT_HEIGHT: f32 = 100.0;

fn viewport() -> ViewportLabel {
    ViewportLabel::new(format!("{}", VIEWPORT_WIDTH), format!("{}", VIEWPORT_HEIGHT))
}

fn bounds(x: f32, y: f32, width: f32, height: f32) -> (Bounds, BoundsChecks) {
    (
        Bounds::new(
            format!("{:.0}", x),
            format!("{:.0}", y),
            format!("{:.0}", width),
            format!("{:.0}", height),
        ),
        BoundsChecks {
            width_is_zero: width == 0.0,
            height_is_zero: height == 0.0,
            width_is_positive: width > 0.0,
            height_is_positive: height > 0.0,
            width_below_one: width < 1.0,
            height_below_one: height < 1.0,
            x_is_negative: x < 0.0,
            y_is_negative: y < 0.0,
            past_right_edge: x + width > VIEWPORT_WIDTH,
            past_bottom_edge: y + height > VIEWPORT_HEIGHT,
        },
    )
}

fn content_size(width: f32, height: f32) -> (String, String) {
    (format!("{:.0}", width), format!("{:.0}", height))
}

#[test]
fn layout_inspector_collects_all_widget_kinds() {
    let mut inspector = LayoutInspector::new(viewport());
    let id = "widget-id".to_string();

    let (b, c) = bounds(0.0, 0.0, 20.0, 10.0);
    inspector.container(Some(id), b, c);
    let (b, c) = bounds(1.0, 2.0, 30.0, 20.0);
    let (cw, ch) = content_size(100.0, 80.0);
    inspector.scrollable(None, b, c, &cw, &ch);
    let (b, c) = bounds(2.0, 3.0, 40.0, 20.0);
    inspector.focusable(None, b, c, true);
    let (b, c) = bounds(2.0, 3.0, 40.0, 20.0);
    inspector.focusable(None, b, c, false);
    let (b, c) = bounds(3.0, 4.0, 50.0, 20.0);
    inspector.text_input(None, b, c);
    let (b, c) = bounds(4.0, 5.0, 60.0, 20.0);
    inspector.text(None, b, c, "");
    let (b, c) = bounds(4.0, 5.0, 60.0, 20.0);
    inspector.text(None, b, c, "label");
    let (b, c) = bounds(5.0, 6.0, 70.0, 20.0);
    inspector.custom(None, b, c);

    let dump = inspector.into_dump();
    let kinds: Vec<_> = dump.entries.iter().map(|entry| entry.kind).collect();
    let extras: Vec<_> = dump
        .entries
        .iter()
        .map(|entry| entry.extra.as_deref())
        .collect();

    assert_eq!(
        kinds,
        vec![
            WidgetKind::Container,
            WidgetKind::Scrollable,
            WidgetKind::Focusable,
            WidgetKind::Focusable,
            WidgetKind::TextInput,
            WidgetKind::Text,
            WidgetKind::Text,
            WidgetKind::Custom,
        ]
    );
    assert!(
        dump.entries[0]
            .id
            .as_ref()
            .is_some_and(|id| id.contains("widget-id"))
    );
    assert_eq!(extras[1], Some("content: 100x80"));
    assert_eq!(extras[2], Some("FOCUSED"));
    assert_eq!(extras[3], None);
    assert_eq!(extras[5], Some("(empty)"));
    assert_eq!(extras[6], Some("label"));
}

#[test]
fn layout_inspector_traverse_tracks_child_depth() {
    let mut inspector = LayoutInspector::new(viewport());

    inspector.enter_children();
    let (b, c) = bounds(0.0, 0.0, 10.0, 10.0);
    inspector.container(None, b, c);
    inspector.leave_children();
    let (b, c) = bounds(0.0, 0.0, 20.0, 20.0);
    inspector.container(None, b, c);

    let dump = inspector.into_dump();

    assert_eq!(dump.entries[0].depth, 1);
    assert_eq!(dump.entries[1].depth, 0);
}

#[test]
fn layout_dumper_finish_returns_collected_dump() {
    let mut dumper = LayoutDumper::new(viewport());

    dumper.inspector_mut().enter_children();
    let (b, c) = bounds(1.0, 2.0, 30.0, 10.0);
    dumper.inspector_mut().text(None, b, c, "hello");
    dumper.inspector_mut().leave_children();

    let dump = dumper.finish();

    assert_eq!(dump.entries.len(), 1);
    assert_eq!(dump.entries[0].depth, 1);
    assert_eq!(dump.entries[0].kind, WidgetKind::Text);
    assert_eq!(dump.entries[0].extra.as_deref(), Some("hello"));
}

#[test]
fn layout_dumper_collects_all_widget_kinds() {
    let mut dumper = LayoutDumper::new(viewport());
    let id = "dumper-id".to_string();

    let (b, c) = bounds(0.0, 0.0, 20.0, 10.0);
    dumper.inspector_mut().container(Some(id), b, c);
    let (b, c) = bounds(1.0, 2.0, 30.0, 20.0);
    let (cw, ch) = content_size(100.0, 80.0);
    dumper.inspector_mut().scrollable(None, b, c, &cw, &ch);
    let (b, c) = bounds(2.0, 3.0, 40.0, 20.0);
    dumper.inspector_mut().focusable(None, b, c, true);
    let (b, c) = bounds(3.0, 4.0, 50.0, 20.0);
    dumper.inspector_mut().text_input(None, b, c);
    let (b, c) = bounds(4.0, 5.0, 60.0, 20.0);
    dumper.inspector_mut().text(None, b, c, "");
    let (b, c) = bounds(5.0, 6.0, 70.0, 20.0);
    dumper.inspector_mut().custom(None, b, c);

    let dump = dumper.finish();
    let kinds: Vec<_> = dump.entries.iter().map(|entry| entry.kind).collect();

    assert_eq!(
        kinds,
        vec![
            WidgetKind::Container,
            WidgetKind::Scrollable,
            WidgetKind::Focusable,
            WidgetKind::TextInput,
            WidgetKind::Text,
            WidgetKind::Custom,
        ]
    );
    assert!(
        dump.entries[0]
            .id
            .as_ref()
            .is_some_and(|id| id.contains("dumper-id"))
    );
    assert_eq!(dump.entries[1].extra.as_deref(), Some("content: 100x80"));
    assert_eq!(dump.entries[2].extra.as_deref(), Some("FOCUSED"));
    assert_eq!(dump.entries[4].extra.as_deref(), Some("(empty)"));
}

#[test]
fn snapshot_prints_like_the_collected_dump() {
    let mut inspector = LayoutInspector::new(viewport());
    let (b, c) = bounds(0.0, 0.0, 200.0, 100.0);
    inspector.container(Some("root".to_string()), b, c);
    inspector.enter_children();
    let (b, c) = bounds(10.0, 10.0, 0.0, 0.0);
    inspector.text(None, b, c, "");
    inspector.leave_children();

    let copy = inspector.snapshot().to_string();
    let dump = inspector.into_dump();
    assert_eq!(copy, dump.to_string());
    assert!(copy.contains("! `- Text \"(empty)\" (10,10 0x0) [INVISIBLE (0x0)]"));
}
