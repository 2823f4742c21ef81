use iced_layout_inspector::{
    Bounds, BoundsChecks, DumpColor, LayoutDump, LayoutEntry, LayoutWarning, ViewportLabel,
    WidgetKind,
};

const VIEWPORT_WIDTH: f32 = 100.0;
const VIEWPORT_HEIGHT: f32 = 80.0;

fn viewport() -> ViewportLabel {
    ViewportLabel::new(format!("{}", VIEWPORT_WIDTH), format!("{}", VIEWPORT_HEIGHT))
}

fn rendered(x: f32, y: f32, width: f32, height: f32) -> Bounds {
    Bounds::new(
        format!("{:.0}", x),
        format!("{:.0}", y),
        format!("{:.0}", width),
        format!("{:.0}", height),
    )
}

fn checks(x: f32, y: f32, width: f32, height: f32) -> BoundsChecks {
    BoundsChecks {
        width_is_zero: width == 0.0,
        height_is_zero: height == 0.0,
        width_is_positive: width > 0.0,
        height_is_positive: height > 0.0,
        width_below_one: width < 1.0,
        height_below_one: height < 1.0,
        x_is_negative: x < 0.0,
        y_is_negative: y < 0.0,
        past_right_edge: x + width > VIEWPORT_WIDTH,
        past_bottom_edge: y + height > VIEWPORT_HEIGHT,
    }
}

fn new_entry(
    depth: usize,
    kind: WidgetKind,
    id: Option<String>,
    (x, y, width, height): (f32, f32, f32, f32),
    extra: Option<String>,
) -> LayoutEntry {
    LayoutEntry::new(depth, kind, id, rendered(x, y, width, height), checks(x, y, width, height), extra)
}

fn entry(depth: usize, kind: WidgetKind, bounds: (f32, f32, f32, f32)) -> LayoutEntry {
    new_entry(depth, kind, None, bounds, None)
}

#[test]
fn widget_kind_display_names_match_dump_format() {
    let cases = [
        (WidgetKind::Container, "Container"),
        (WidgetKind::Scrollable, "Scrollable"),
        (WidgetKind::Focusable, "Focusable"),
        (WidgetKind::TextInput, "TextInput"),
        (WidgetKind::Text, "Text"),
        (WidgetKind::Custom, "Custom"),
    ];

    for (kind, expected) in cases {
        assert_eq!(kind.to_string(), expected);
    }
}

#[test]
fn layout_warning_display_names_are_human_readable() {
    let cases = [
        (LayoutWarning::Invisible, "INVISIBLE (0x0)"),
        (LayoutWarning::ZeroWidth, "ZERO WIDTH"),
        (LayoutWarning::ZeroHeight, "ZERO HEIGHT"),
        (LayoutWarning::Offscreen, "OFFSCREEN"),
        (LayoutWarning::PartiallyOffscreen, "PARTIALLY OFFSCREEN"),
        (LayoutWarning::TooSmall, "TOO SMALL (<1px)"),
    ];

    for (warning, expected) in cases {
        assert_eq!(warning.to_string(), expected);
    }
}

/// Colour channels in 0.0-1.0 quantised to bytes; alpha within 0.01 of 1.0
/// counts as opaque.
fn color(r: f32, g: f32, b: f32, a: f32) -> DumpColor {
    let byte = |v: f32| (v * 255.0).round() as u8;
    let alpha = if (a - 1.0).abs() < 0.01 { None } else { Some(byte(a)) };
    DumpColor::new(byte(r), byte(g), byte(b), alpha)
}

#[test]
fn dump_color_formats_rgb_and_rgba_hex() {
    let opaque = color(1.0, 0.5, 0.0, 1.0);
    let transparent = color(0.0, 0.25, 1.0, 0.5);
    let iced = color(0.25, 0.5, 0.75, 1.0);

    assert_eq!(opaque.to_hex(), "#FF8000");
    assert_eq!(opaque.to_string(), "#FF8000");
    assert_eq!(transparent.to_hex(), "#0040FF80");
    assert_eq!(iced.to_hex(), "#4080BF");
}

#[test]
fn layout_entry_detects_zero_size_and_offscreen_warnings() {
    let invisible = entry(0, WidgetKind::Container, (0.0, 0.0, 0.0, 0.0));
    let zero_width = entry(0, WidgetKind::Container, (0.0, 0.0, 0.0, 20.0));
    let zero_height = entry(0, WidgetKind::Container, (0.0, 0.0, 20.0, 0.0));
    let offscreen = entry(0, WidgetKind::Container, (-1.0, 0.0, 20.0, 20.0));
    let partial = entry(0, WidgetKind::Container, (90.0, 70.0, 20.0, 20.0));
    let too_small = entry(0, WidgetKind::Container, (0.0, 0.0, 0.5, 20.0));

    assert_eq!(invisible.warnings, vec![LayoutWarning::Invisible]);
    assert_eq!(zero_width.warnings, vec![LayoutWarning::ZeroWidth]);
    assert_eq!(zero_height.warnings, vec![LayoutWarning::ZeroHeight]);
    assert_eq!(offscreen.warnings, vec![LayoutWarning::Offscreen]);
    assert_eq!(partial.warnings, vec![LayoutWarning::PartiallyOffscreen]);
    assert_eq!(too_small.warnings, vec![LayoutWarning::TooSmall]);
}

#[test]
fn layout_entry_builder_methods_add_colors() {
    let background = color(1.0, 0.0, 0.0, 1.0);
    let text_color = color(0.0, 1.0, 0.0, 1.0);

    let entry = entry(0, WidgetKind::Text, (0.0, 0.0, 10.0, 10.0))
        .with_background(background.clone())
        .with_text_color(text_color.clone());

    assert_eq!(
        entry.background.as_ref().map(DumpColor::to_hex),
        Some(background.to_hex())
    );
    assert_eq!(
        entry.text_color.as_ref().map(DumpColor::to_hex),
        Some(text_color.to_hex())
    );
    assert!(!entry.has_warnings());
}

#[test]
fn layout_dump_reports_warnings_and_tree_format() {
    let mut dump = LayoutDump::new(viewport());
    dump.push(new_entry(
        0,
        WidgetKind::Container,
        Some("root".to_string()),
        (0.0, 0.0, 100.0, 80.0),
        None,
    ));
    dump.push(new_entry(
        1,
        WidgetKind::Text,
        None,
        (10.0, 10.0, 20.0, 10.0),
        Some("abcdefghijklmnopqrstuvwxyz1234567890".to_string()),
    ));
    dump.push(new_entry(
        1,
        WidgetKind::Container,
        Some("broken".to_string()),
        (10.0, 20.0, 20.0, 0.0),
        None,
    ));

    let warnings: Vec<_> = dump.warnings();
    let tree = dump.to_string();

    assert_eq!(warnings.len(), 1);
    assert_eq!(dump.warning_count(), 1);
    assert!(tree.contains("[Viewport: 100x80]"));
    assert!(tree.contains("Found 3 widgets, 1 with warnings"));
    assert!(tree.contains("  Container #root (0,0 100x80)"));
    assert!(tree.contains("|- Text \"abcdefghijklmnopqrstuvwxyz1...\" (10,10 20x10)"));
    assert!(tree.contains("! `- Container #broken (10,20 20x0) [ZERO HEIGHT]"));
}

#[test]
fn design_example_renders_exactly() {
    let width = 800.0f32;
    let height = 600.0f32;
    let label = ViewportLabel::new(format!("{}", width), format!("{}", height));
    let at = |x: f32, y: f32, w: f32, h: f32| {
        (
            Bounds::new(format!("{:.0}", x), format!("{:.0}", y), format!("{:.0}", w), format!("{:.0}", h)),
            BoundsChecks {
                width_is_zero: w == 0.0,
                height_is_zero: h == 0.0,
                width_is_positive: w > 0.0,
                height_is_positive: h > 0.0,
                width_below_one: w < 1.0,
                height_below_one: h < 1.0,
                x_is_negative: x < 0.0,
                y_is_negative: y < 0.0,
                past_right_edge: x + w > width,
                past_bottom_edge: y + h > height,
            },
        )
    };
    let mut dump = LayoutDump::new(label);
    let rows: Vec<(usize, WidgetKind, Option<&str>, (f32, f32, f32, f32), Option<&str>)> = vec![
        (0, WidgetKind::Container, Some("root"), (0.0, 0.0, 800.0, 600.0), None),
        (1, WidgetKind::Container, None, (350.0, 250.0, 100.0, 100.0), None),
        (2, WidgetKind::Focusable, Some("btn-plus"), (350.0, 250.0, 100.0, 30.0), None),
        (2, WidgetKind::Text, None, (380.0, 290.0, 40.0, 50.0), Some("42")),
        (2, WidgetKind::Focusable, Some("btn-minus"), (350.0, 350.0, 100.0, 30.0), None),
        (2, WidgetKind::Container, Some("broken"), (350.0, 390.0, 100.0, 0.0), None),
    ];
    for (depth, kind, id, (x, y, w, h), extra) in rows {
        let (b, c) = at(x, y, w, h);
        dump.push(LayoutEntry::new(depth, kind, id.map(str::to_string), b, c, extra.map(str::to_string)));
    }
    let expected = [
        "[Viewport: 800x600]\n\n",
        "Found 6 widgets, 1 with warnings\n\n",
        "  Container #root (0,0 800x600)\n",
        "  `- Container (350,250 100x100)\n",
        "     |- Focusable #btn-plus (350,250 100x30)\n",
        "     |- Text \"42\" (380,290 40x50)\n",
        "     |- Focusable #btn-minus (350,350 100x30)\n",
        "!    `- Container #broken (350,390 100x0) [ZERO HEIGHT]\n",
    ]
    .concat();
    assert_eq!(dump.to_string(), expected);
}

#[test]
fn rails_continue_past_deeper_children() {
    let mut dump = LayoutDump::new(viewport());
    for depth in [0usize, 1, 2, 1, 2] {
        dump.push(entry(depth, WidgetKind::Container, (0.0, 0.0, 10.0, 10.0)));
    }
    let tree = dump.to_string();
    let lines: Vec<&str> = tree.lines().skip(4).collect();
    assert_eq!(
        lines,
        vec![
            "  Container (0,0 10x10)",
            "  |- Container (0,0 10x10)",
            "  |  `- Container (0,0 10x10)",
            "  `- Container (0,0 10x10)",
            "     `- Container (0,0 10x10)",
        ]
    );
}

#[test]
fn entry_line_lists_colours_and_all_warnings() {
    let mut dump = LayoutDump::new(viewport());
    dump.push(
        new_entry(0, WidgetKind::Custom, Some("w".to_string()), (-5.0, 0.0, 0.0, 0.5), None)
            .with_background(DumpColor::new(255, 0, 0, None))
            .with_text_color(DumpColor::new(0, 255, 0, Some(128))),
    );
    let tree = dump.to_string();
    assert!(tree.contains("Found 1 widgets, 1 with warnings"));
    assert!(tree.contains(
        "! Custom #w (-5,0 0x0) bg:#FF0000 fg:#00FF0080 [ZERO WIDTH, TOO SMALL (<1px), OFFSCREEN]"
    ));
}

#[test]
fn empty_dump_reports_no_warnings() {
    let dump = LayoutDump::new(viewport());
    assert_eq!(dump.warning_count(), 0);
    assert!(dump.warnings().is_empty());
    assert_eq!(dump.to_string(), "[Viewport: 100x80]\n\nFound 0 widgets, no warnings\n\n");
}

#[test]
fn warning_rules_never_combine_exclusive_warnings() {
    let invisible_offscreen = entry(0, WidgetKind::Text, (-1.0, -1.0, 0.0, 0.0));
    assert_eq!(invisible_offscreen.warnings, vec![LayoutWarning::Invisible, LayoutWarning::Offscreen]);
    let past_both_edges = entry(0, WidgetKind::Text, (99.8, 79.8, 0.5, 0.5));
    assert_eq!(past_both_edges.warnings, vec![LayoutWarning::TooSmall, LayoutWarning::PartiallyOffscreen]);
}
