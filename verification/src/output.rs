//! The layout dump: widget kinds, warnings, entries and the text tree.

use vstd::prelude::*;

use crate::text::{
    append_hex_byte, decimal, decimal_text, hex_byte, hex_value, is_upper_hex_digit,
    lemma_hex_byte_reads_back,
};

verus! {

/// The type of widget detected during inspection.
#[derive(Debug, Clone, Copy, PartialEq, Eq, Structural)]
pub enum WidgetKind {
    /// A container widget (row, column, container, etc.)
    Container,
    /// A scrollable widget
    Scrollable,
    /// A focusable widget (button, etc.)
    Focusable,
    /// A text input widget
    TextInput,
    /// A text widget
    Text,
    /// A custom widget
    Custom,
}

/// The name under which a widget kind appears in the dump.
pub open spec fn kind_name(kind: WidgetKind) -> Seq<char> {
    match kind {
        WidgetKind::Container => "Container"@,
        WidgetKind::Scrollable => "Scrollable"@,
        WidgetKind::Focusable => "Focusable"@,
        WidgetKind::TextInput => "TextInput"@,
        WidgetKind::Text => "Text"@,
        WidgetKind::Custom => "Custom"@,
    }
}

impl WidgetKind {
    /// The name of this kind as the dump prints it.
    pub fn to_string(&self) -> (s: String)
        ensures
            s@ == kind_name(*self),
    {
        let mut s = String::new();
        match self {
            WidgetKind::Container => s.append("Container"),
            WidgetKind::Scrollable => s.append("Scrollable"),
            WidgetKind::Focusable => s.append("Focusable"),
            WidgetKind::TextInput => s.append("TextInput"),
            WidgetKind::Text => s.append("Text"),
            WidgetKind::Custom => s.append("Custom"),
        }
        s
    }
}

/// Warnings about potential layout issues.
#[derive(Debug, Clone, Copy, PartialEq, Eq, Structural)]
pub enum LayoutWarning {
    /// Widget has zero width and height (completely invisible)
    Invisible,
    /// Widget has zero width
    ZeroWidth,
    /// Widget has zero height
    ZeroHeight,
    /// Widget is positioned outside the viewport (negative coordinates)
    Offscreen,
    /// Widget extends beyond the viewport
    PartiallyOffscreen,
    /// Widget has very small size (< 1px in either dimension)
    TooSmall,
}

/// The human-readable label of a warning.
pub open spec fn warning_name(w: LayoutWarning) -> Seq<char> {
    match w {
        LayoutWarning::Invisible => "INVISIBLE (0x0)"@,
        LayoutWarning::ZeroWidth => "ZERO WIDTH"@,
        LayoutWarning::ZeroHeight => "ZERO HEIGHT"@,
        LayoutWarning::Offscreen => "OFFSCREEN"@,
        LayoutWarning::PartiallyOffscreen => "PARTIALLY OFFSCREEN"@,
        LayoutWarning::TooSmall => "TOO SMALL (<1px)"@,
    }
}

impl LayoutWarning {
    /// The label of this warning as the dump prints it.
    pub fn to_string(&self) -> (s: String)
        ensures
            s@ == warning_name(*self),
    {
        let mut s = String::new();
        match self {
            LayoutWarning::Invisible => s.append("INVISIBLE (0x0)"),
            LayoutWarning::ZeroWidth => s.append("ZERO WIDTH"),
            LayoutWarning::ZeroHeight => s.append("ZERO HEIGHT"),
            LayoutWarning::Offscreen => s.append("OFFSCREEN"),
            LayoutWarning::PartiallyOffscreen => s.append("PARTIALLY OFFSCREEN"),
            LayoutWarning::TooSmall => s.append("TOO SMALL (<1px)"),
        }
        s
    }
}

/// A colour quantised to bytes, as the dump prints it.
///
/// `alpha` is `None` for an opaque colour (printed as `#RRGGBB`) and holds
/// the alpha byte otherwise (printed as `#RRGGBBAA`).
#[derive(Debug, Clone, Copy, PartialEq, Eq, Structural)]
pub struct DumpColor {
    pub r: u8,
    pub g: u8,
    pub b: u8,
    pub alpha: Option<u8>,
}

/// `#RRGGBB`, followed by `AA` when the colour is not opaque.
pub open spec fn color_hex(c: DumpColor) -> Seq<char> {
    let rgb = "#"@ + hex_byte(c.r) + hex_byte(c.g) + hex_byte(c.b);
    match c.alpha {
        Some(a) => rgb + hex_byte(a),
        None => rgb,
    }
}

impl DumpColor {
    /// Create a colour from its channel bytes.
    pub fn new(r: u8, g: u8, b: u8, alpha: Option<u8>) -> (c: Self)
        ensures
            c == (DumpColor { r, g, b, alpha }),
    {
        DumpColor { r, g, b, alpha }
    }

    /// Format as hex colour (#RRGGBB or #RRGGBBAA).
    pub fn to_hex(&self) -> (s: String)
        ensures
            s@ == color_hex(*self),
    {
        let mut s = String::new();
        s.append("#");
        append_hex_byte(&mut s, self.r);
        append_hex_byte(&mut s, self.g);
        append_hex_byte(&mut s, self.b);
        match self.alpha {
            Some(a) => append_hex_byte(&mut s, a),
            None => {},
        }
        s
    }

    /// The same text as `to_hex`.
    pub fn to_string(&self) -> (s: String)
        ensures
            s@ == color_hex(*self),
    {
        self.to_hex()
    }
}

/// A colour prints as `#` and six hexadecimal digits, two more when it is
/// not opaque.
pub proof fn lemma_color_hex_shape(c: DumpColor)
    ensures
        color_hex(c)[0] == '#',
        color_hex(c).len() == (if c.alpha is Some { 9int } else { 7int }),
{
    reveal_strlit("#");
}

/// Each channel of a colour reads back from its two digits: red from
/// characters 1 and 2, green from 3 and 4, blue from 5 and 6, and alpha,
/// when present, from 7 and 8; every digit is an upper-case hexadecimal one.
pub proof fn lemma_color_hex_reads_back(c: DumpColor)
    ensures
        forall|k: int| 1 <= k < color_hex(c).len() ==> is_upper_hex_digit(#[trigger] color_hex(c)[k]),
        16 * hex_value(color_hex(c)[1]) + hex_value(color_hex(c)[2]) == c.r,
        16 * hex_value(color_hex(c)[3]) + hex_value(color_hex(c)[4]) == c.g,
        16 * hex_value(color_hex(c)[5]) + hex_value(color_hex(c)[6]) == c.b,
        c.alpha is Some ==> 16 * hex_value(color_hex(c)[7]) + hex_value(color_hex(c)[8])
            == c.alpha.unwrap(),
{
    reveal_strlit("#");
    lemma_hex_byte_reads_back(c.r);
    lemma_hex_byte_reads_back(c.g);
    lemma_hex_byte_reads_back(c.b);
    let h = "#"@;
    let rgb = h + hex_byte(c.r) + hex_byte(c.g) + hex_byte(c.b);
    assert(rgb[1] == hex_byte(c.r)[0] && rgb[2] == hex_byte(c.r)[1]);
    assert(rgb[3] == hex_byte(c.g)[0] && rgb[4] == hex_byte(c.g)[1]);
    assert(rgb[5] == hex_byte(c.b)[0] && rgb[6] == hex_byte(c.b)[1]);
    assert(rgb.len() == 7);
    assert forall|k: int| 1 <= k < 7 implies is_upper_hex_digit(#[trigger] rgb[k]) by {
        if k < 3 {
            assert(rgb[k] == hex_byte(c.r)[k - 1]);
        } else if k < 5 {
            assert(rgb[k] == hex_byte(c.g)[k - 3]);
        } else {
            assert(rgb[k] == hex_byte(c.b)[k - 5]);
        }
    }
    match c.alpha {
        Some(a) => {
            lemma_hex_byte_reads_back(a);
            let full = rgb + hex_byte(a);
            assert(full[7] == hex_byte(a)[0] && full[8] == hex_byte(a)[1]);
            assert forall|k: int| 1 <= k < full.len() implies is_upper_hex_digit(#[trigger] full[k]) by {
                if k >= 7 {
                    assert(full[k] == hex_byte(a)[k - 7]);
                } else {
                    assert(full[k] == rgb[k]);
                }
            }
        },
        None => {},
    }
}

/// The outcome of each comparison that the warning rules make on a
/// widget's bounds and the viewport.
#[derive(Debug, Clone, Copy, PartialEq, Eq, Structural)]
pub struct BoundsChecks {
    /// `width == 0`
    pub width_is_zero: bool,
    /// `height == 0`
    pub height_is_zero: bool,
    /// `width > 0`
    pub width_is_positive: bool,
    /// `height > 0`
    pub height_is_positive: bool,
    /// `width < 1`
    pub width_below_one: bool,
    /// `height < 1`
    pub height_below_one: bool,
    /// `x < 0`
    pub x_is_negative: bool,
    /// `y < 0`
    pub y_is_negative: bool,
    /// `x + width > viewport width`
    pub past_right_edge: bool,
    /// `y + height > viewport height`
    pub past_bottom_edge: bool,
}

/// Size warnings: `Invisible` when both sides are zero, otherwise one
/// warning for each zero side.
pub open spec fn size_warnings(c: BoundsChecks) -> Seq<LayoutWarning> {
    if c.width_is_zero && c.height_is_zero {
        seq![LayoutWarning::Invisible]
    } else {
        (if c.width_is_zero { seq![LayoutWarning::ZeroWidth] } else { Seq::empty() })
            + (if c.height_is_zero { seq![LayoutWarning::ZeroHeight] } else { Seq::empty() })
    }
}

/// A side strictly between 0 and 1 pixel makes the widget too small.
pub open spec fn is_too_small(c: BoundsChecks) -> bool {
    (c.width_is_positive && c.width_below_one) || (c.height_is_positive && c.height_below_one)
}

/// Position warnings: `Offscreen` before the origin, otherwise
/// `PartiallyOffscreen` past the viewport's right or bottom edge.
pub open spec fn position_warnings(c: BoundsChecks) -> Seq<LayoutWarning> {
    if c.x_is_negative || c.y_is_negative {
        seq![LayoutWarning::Offscreen]
    } else if c.past_right_edge || c.past_bottom_edge {
        seq![LayoutWarning::PartiallyOffscreen]
    } else {
        Seq::empty()
    }
}

/// All warnings of a widget, in the order the dump lists them.
pub open spec fn warnings_for(c: BoundsChecks) -> Seq<LayoutWarning> {
    size_warnings(c) + (if is_too_small(c) { seq![LayoutWarning::TooSmall] } else { Seq::empty() })
        + position_warnings(c)
}

/// Computes the warnings of a widget from its bounds checks.
pub fn detect_warnings(c: &BoundsChecks) -> (ws: Vec<LayoutWarning>)
    ensures
        ws@ == warnings_for(*c),
        ws@.contains(LayoutWarning::Offscreen) <==> (c.x_is_negative || c.y_is_negative),
        ws@.contains(LayoutWarning::PartiallyOffscreen) <==> (!c.x_is_negative && !c.y_is_negative
            && (c.past_right_edge || c.past_bottom_edge)),
{
    let mut ws: Vec<LayoutWarning> = Vec::new();
    if c.width_is_zero && c.height_is_zero {
        ws.push(LayoutWarning::Invisible);
    } else {
        if c.width_is_zero {
            ws.push(LayoutWarning::ZeroWidth);
        }
        if c.height_is_zero {
            ws.push(LayoutWarning::ZeroHeight);
        }
    }
    if (c.width_is_positive && c.width_below_one) || (c.height_is_positive && c.height_below_one) {
        ws.push(LayoutWarning::TooSmall);
    }
    if c.x_is_negative || c.y_is_negative {
        ws.push(LayoutWarning::Offscreen);
    } else if c.past_right_edge || c.past_bottom_edge {
        ws.push(LayoutWarning::PartiallyOffscreen);
    }
    proof {
        assert(ws@ =~= warnings_for(*c));
        lemma_warning_membership(*c);
    }
    ws
}

/// A widget's bounds as the dump prints them: each coordinate and side
/// already rounded to whole pixels (`{:.0}`).
#[derive(Debug, PartialEq, Eq)]
pub struct Bounds {
    pub x: String,
    pub y: String,
    pub width: String,
    pub height: String,
}

impl Bounds {
    /// Bounds from their four rendered numbers.
    pub fn new(x: String, y: String, width: String, height: String) -> (b: Self)
        ensures
            b == (Bounds { x, y, width, height }),
    {
        Bounds { x, y, width, height }
    }

    /// An equal copy of these bounds.
    pub fn duplicate(&self) -> (b: Self)
        ensures
            b == *self,
    {
        Bounds {
            x: self.x.clone(),
            y: self.y.clone(),
            width: self.width.clone(),
            height: self.height.clone(),
        }
    }
}

/// A single entry in the layout dump.
#[derive(Debug)]
pub struct LayoutEntry {
    /// Depth in the widget tree (0 = root)
    pub depth: usize,
    /// Type of widget
    pub kind: WidgetKind,
    /// Widget ID if available
    pub id: Option<String>,
    /// Bounds: x, y, width, height
    pub bounds: Bounds,
    /// Extra info (text content, etc.)
    pub extra: Option<String>,
    /// Layout warnings
    pub warnings: Vec<LayoutWarning>,
    /// Background color (if available)
    pub background: Option<DumpColor>,
    /// Text/foreground color (if available)
    pub text_color: Option<DumpColor>,
}

/// Whether an entry carries at least one warning.
pub open spec fn has_warnings(e: LayoutEntry) -> bool {
    e.warnings@.len() > 0
}

/// An equal copy of an optional string.
fn duplicate_text(s: &Option<String>) -> (r: Option<String>)
    ensures
        r == *s,
{
    match s {
        Some(t) => Some(t.clone()),
        None => None,
    }
}

impl LayoutEntry {
    /// Create a new layout entry and detect its warnings.
    pub fn new(
        depth: usize,
        kind: WidgetKind,
        id: Option<String>,
        bounds: Bounds,
        checks: BoundsChecks,
        extra: Option<String>,
    ) -> (e: Self)
        ensures
            e.depth == depth,
            e.kind == kind,
            e.id == id,
            e.bounds == bounds,
            e.extra == extra,
            e.warnings@ == warnings_for(checks),
            e.background.is_none(),
            e.text_color.is_none(),
    {
        let warnings = detect_warnings(&checks);
        LayoutEntry {
            depth,
            kind,
            id,
            bounds,
            extra,
            warnings,
            background: None,
            text_color: None,
        }
    }

    /// Returns true if this entry has any warnings.
    pub fn has_warnings(&self) -> (b: bool)
        ensures
            b == has_warnings(*self),
            b == (self.warnings@.len() > 0),
    {
        self.warnings.len() > 0
    }

    /// Set the background color.
    pub fn with_background(self, color: DumpColor) -> (e: Self)
        ensures
            e == (LayoutEntry { background: Some(color), ..self }),
    {
        let mut e = self;
        e.background = Some(color);
        e
    }

    /// Set the text/foreground color.
    pub fn with_text_color(self, color: DumpColor) -> (e: Self)
        ensures
            e == (LayoutEntry { text_color: Some(color), ..self }),
    {
        let mut e = self;
        e.text_color = Some(color);
        e
    }

    /// A copy of this entry holding the same values.
    pub fn duplicate(&self) -> (e: Self)
        ensures
            same_entry(e, *self),
    {
        LayoutEntry {
            depth: self.depth,
            kind: self.kind,
            id: duplicate_text(&self.id),
            bounds: self.bounds.duplicate(),
            extra: duplicate_text(&self.extra),
            warnings: self.warnings.clone(),
            background: self.background,
            text_color: self.text_color,
        }
    }
}

/// Two entries that hold the same values field by field.
pub open spec fn same_entry(a: LayoutEntry, b: LayoutEntry) -> bool {
    &&& a.depth == b.depth
    &&& a.kind == b.kind
    &&& a.id == b.id
    &&& a.bounds == b.bounds
    &&& a.extra == b.extra
    &&& a.warnings@ == b.warnings@
    &&& a.background == b.background
    &&& a.text_color == b.text_color
}

/// Two sequences of entries that match position by position.
pub open spec fn same_entries(a: Seq<LayoutEntry>, b: Seq<LayoutEntry>) -> bool {
    &&& a.len() == b.len()
    &&& forall|i: int| 0 <= i < a.len() ==> same_entry(#[trigger] a[i], b[i])
}

/// Long extra text is cut to its first 27 characters followed by `...`.
pub open spec fn truncated(s: Seq<char>) -> Seq<char> {
    if s.len() > 30 {
        s.take(27) + "..."@
    } else {
        s
    }
}

/// Shortens extra text longer than 30 characters to 27 characters and `...`.
pub fn truncate_extra(extra: &str) -> (s: String)
    ensures
        s@ == truncated(extra@),
{
    let mut s = String::new();
    if extra.unicode_len() > 30 {
        s.append(extra.substring_char(0, 27));
        s.append("...");
    } else {
        s.append(extra);
    }
    s
}

/// ` #id` when the entry has an id.
pub open spec fn id_part(e: LayoutEntry) -> Seq<char> {
    match e.id {
        Some(id) => " #"@ + id@,
        None => Seq::empty(),
    }
}

/// ` "extra"` (truncated) when the entry has extra text.
pub open spec fn extra_part(e: LayoutEntry) -> Seq<char> {
    match e.extra {
        Some(x) => " \""@ + truncated(x@) + "\""@,
        None => Seq::empty(),
    }
}

/// `(x,y wxh)`.
pub open spec fn bounds_part(b: Bounds) -> Seq<char> {
    "("@ + b.x@ + ","@ + b.y@ + " "@ + b.width@ + "x"@ + b.height@ + ")"@
}

/// The warning labels joined by `, `.
pub open spec fn joined_names(ws: Seq<LayoutWarning>) -> Seq<char>
    decreases ws.len(),
{
    if ws.len() == 0 {
        Seq::empty()
    } else if ws.len() == 1 {
        warning_name(ws[0])
    } else {
        joined_names(ws.drop_last()) + ", "@ + warning_name(ws.last())
    }
}

/// ` [W1, W2]` when the entry has warnings.
pub open spec fn warnings_part(e: LayoutEntry) -> Seq<char> {
    if e.warnings@.len() == 0 {
        Seq::empty()
    } else {
        " ["@ + joined_names(e.warnings@) + "]"@
    }
}

/// ` bg:#.. fg:#..`, each part only when the colour is set.
pub open spec fn colors_part(e: LayoutEntry) -> Seq<char> {
    match (e.background, e.text_color) {
        (Some(bg), Some(fg)) => " bg:"@ + color_hex(bg) + " fg:"@ + color_hex(fg),
        (Some(bg), None) => " bg:"@ + color_hex(bg),
        (None, Some(fg)) => " fg:"@ + color_hex(fg),
        (None, None) => Seq::empty(),
    }
}

/// `! ` marks an entry with warnings; other entries get two spaces.
pub open spec fn warning_prefix(e: LayoutEntry) -> Seq<char> {
    if has_warnings(e) { "! "@ } else { "  "@ }
}

/// One line of the tree: marker, indentation, kind, id, extra text,
/// bounds, colours and warnings.
pub open spec fn entry_line(e: LayoutEntry, indent: Seq<char>) -> Seq<char> {
    warning_prefix(e) + indent + kind_name(e.kind) + id_part(e) + extra_part(e) + " "@
        + bounds_part(e.bounds) + colors_part(e) + warnings_part(e) + "\n"@
}

fn format_id(entry: &LayoutEntry) -> (s: String)
    ensures
        s@ == id_part(*entry),
{
    let mut s = String::new();
    match &entry.id {
        Some(id) => {
            s.append(" #");
            s.append(id.as_str());
        },
        None => {},
    }
    s
}

fn format_extra(entry: &LayoutEntry) -> (s: String)
    ensures
        s@ == extra_part(*entry),
{
    let mut s = String::new();
    match &entry.extra {
        Some(extra) => {
            s.append(" \"");
            let t = truncate_extra(extra.as_str());
            s.append(t.as_str());
            s.append("\"");
        },
        None => {},
    }
    s
}

fn format_bounds(entry: &LayoutEntry) -> (s: String)
    ensures
        s@ == bounds_part(entry.bounds),
{
    let b = &entry.bounds;
    let mut s = String::new();
    s.append("(");
    s.append(b.x.as_str());
    s.append(",");
    s.append(b.y.as_str());
    s.append(" ");
    s.append(b.width.as_str());
    s.append("x");
    s.append(b.height.as_str());
    s.append(")");
    s
}

fn format_warnings(entry: &LayoutEntry) -> (s: String)
    ensures
        s@ == warnings_part(*entry),
{
    let ws = &entry.warnings;
    if ws.len() == 0 {
        return String::new();
    }
    let mut joined = String::new();
    let mut i: usize = 0;
    while i < ws.len()
        invariant
            i <= ws@.len(),
            joined@ == joined_names(ws@.take(i as int)),
        decreases ws@.len() - i,
    {
        if i > 0 {
            joined.append(", ");
        }
        let name = ws[i].to_string();
        joined.append(name.as_str());
        proof {
            assert(ws@.take(i + 1).drop_last() =~= ws@.take(i as int));
            assert(ws@.take(i + 1).last() == ws@[i as int]);
            if i == 0 {
                assert(ws@.take(0) =~= Seq::<LayoutWarning>::empty());
            }
        }
        i = i + 1;
    }
    assert(ws@.take(ws@.len() as int) =~= ws@);
    let mut s = String::new();
    s.append(" [");
    s.append(joined.as_str());
    s.append("]");
    s
}

fn format_colors(entry: &LayoutEntry) -> (s: String)
    ensures
        s@ == colors_part(*entry),
{
    let mut s = String::new();
    match (&entry.background, &entry.text_color) {
        (Some(bg), Some(fg)) => {
            s.append(" bg:");
            s.append(bg.to_hex().as_str());
            s.append(" fg:");
            s.append(fg.to_hex().as_str());
        },
        (Some(bg), None) => {
            s.append(" bg:");
            s.append(bg.to_hex().as_str());
        },
        (None, Some(fg)) => {
            s.append(" fg:");
            s.append(fg.to_hex().as_str());
        },
        (None, None) => {},
    }
    s
}

fn format_entry(entry: &LayoutEntry, indent: &str) -> (s: String)
    ensures
        s@ == entry_line(*entry, indent@),
{
    let bounds = format_bounds(entry);
    let id_str = format_id(entry);
    let extra_str = format_extra(entry);
    let warning_str = format_warnings(entry);
    let color_str = format_colors(entry);
    let mut s = String::new();
    if entry.has_warnings() {
        s.append("! ");
    } else {
        s.append("  ");
    }
    s.append(indent);
    s.append(entry.kind.to_string().as_str());
    s.append(id_str.as_str());
    s.append(extra_str.as_str());
    s.append(" ");
    s.append(bounds.as_str());
    s.append(color_str.as_str());
    s.append(warning_str.as_str());
    s.append("\n");
    s
}

/// The viewport size as the dump header prints it (`{}` of each side).
#[derive(Debug, PartialEq, Eq)]
pub struct ViewportLabel {
    pub width: String,
    pub height: String,
}

impl ViewportLabel {
    /// A viewport label from the two rendered sides.
    pub fn new(width: String, height: String) -> (v: Self)
        ensures
            v == (ViewportLabel { width, height }),
    {
        ViewportLabel { width, height }
    }

    /// An equal copy of this label.
    pub fn duplicate(&self) -> (v: Self)
        ensures
            v == *self,
    {
        ViewportLabel { width: self.width.clone(), height: self.height.clone() }
    }
}

/// The complete layout dump result.
#[derive(Debug)]
pub struct LayoutDump {
    /// Viewport size
    pub viewport: ViewportLabel,
    /// All entries in tree order
    pub entries: Vec<LayoutEntry>,
}

/// The entries that carry warnings, in tree order.
pub open spec fn warned_entries(entries: Seq<LayoutEntry>) -> Seq<LayoutEntry> {
    entries.filter(|e: LayoutEntry| has_warnings(e))
}

/// Some entry after position `i` sits at depth `d`.
pub open spec fn depth_follows(entries: Seq<LayoutEntry>, i: int, d: int) -> bool {
    exists|j: int| i < j < entries.len() && #[trigger] entries[j].depth == d
}

/// A later sibling of entry `i` at depth `d` exists: an entry at depth `d`
/// reached before the tree climbs above depth `d`.
pub open spec fn sibling_follows(entries: Seq<LayoutEntry>, i: int, d: int) -> bool {
    exists|j: int|
        i < j < entries.len() && #[trigger] entries[j].depth == d && (forall|k: int|
            i < k < j ==> #[trigger] entries[k].depth >= d)
}

/// The rail drawn at `level`: a vertical line while that level goes on.
pub open spec fn rail(entries: Seq<LayoutEntry>, i: int, level: int) -> Seq<char> {
    if depth_follows(entries, i, level + 1) { "|  "@ } else { "   "@ }
}

/// The rails of levels `0..n`.
pub open spec fn rails(entries: Seq<LayoutEntry>, i: int, n: nat) -> Seq<char>
    decreases n,
{
    if n == 0 {
        Seq::empty()
    } else {
        rails(entries, i, (n - 1) as nat) + rail(entries, i, n - 1)
    }
}

/// The tree drawing before entry `i` when drawn at depth `d`: nothing at
/// the root, otherwise a rail for each enclosing level and a branch,
/// `` `- `` for the last child.
pub open spec fn indent_at(entries: Seq<LayoutEntry>, i: int, d: int) -> Seq<char> {
    if d <= 0 {
        Seq::empty()
    } else {
        rails(entries, i, (d - 1) as nat) + (if sibling_follows(entries, i, d) {
            "|- "@
        } else {
            "`- "@
        })
    }
}

/// The tree drawing before entry `i`, at its own depth.
pub open spec fn indent_text(entries: Seq<LayoutEntry>, i: int) -> Seq<char> {
    indent_at(entries, i, entries[i].depth as int)
}

/// The lines of the first `n` entries.
pub open spec fn tree_lines(entries: Seq<LayoutEntry>, n: nat) -> Seq<char>
    decreases n,
{
    if n == 0 {
        Seq::empty()
    } else {
        tree_lines(entries, (n - 1) as nat) + entry_line(entries[n - 1], indent_text(entries, n - 1))
    }
}

/// The summary line: widget count and, when some have warnings, their count.
pub open spec fn summary(total: nat, warned: nat) -> Seq<char> {
    if warned > 0 {
        "Found "@ + decimal(total) + " widgets, "@ + decimal(warned) + " with warnings\n\n"@
    } else {
        "Found "@ + decimal(total) + " widgets, no warnings\n\n"@
    }
}

/// The viewport header line.
pub open spec fn viewport_header(v: ViewportLabel) -> Seq<char> {
    "[Viewport: "@ + v.width@ + "x"@ + v.height@ + "]\n\n"@
}

/// The complete text of a dump.
pub open spec fn dump_text(viewport: ViewportLabel, entries: Seq<LayoutEntry>) -> Seq<char> {
    viewport_header(viewport) + summary(entries.len(), warned_entries(entries).len())
        + tree_lines(entries, entries.len())
}

impl LayoutDump {
    /// Create a new empty layout dump.
    pub fn new(viewport: ViewportLabel) -> (d: Self)
        ensures
            d.viewport == viewport,
            d.entries@.len() == 0,
    {
        LayoutDump { viewport, entries: Vec::new() }
    }

    /// Add an entry to the dump.
    pub fn push(&mut self, entry: LayoutEntry)
        ensures
            final(self).viewport == old(self).viewport,
            final(self).entries@ == old(self).entries@.push(entry),
    {
        self.entries.push(entry);
    }

    /// Returns all entries with warnings.
    pub fn warnings(&self) -> (ws: Vec<&LayoutEntry>)
        ensures
            ws@.map_values(|e: &LayoutEntry| *e) == warned_entries(self.entries@),
    {
        let mut ws: Vec<&LayoutEntry> = Vec::new();
        let mut i: usize = 0;
        while i < self.entries.len()
            invariant
                i <= self.entries@.len(),
                ws@.map_values(|e: &LayoutEntry| *e) == warned_entries(self.entries@.take(i as int)),
            decreases self.entries@.len() - i,
        {
            proof {
                reveal(Seq::filter);
                assert(self.entries@.take(i + 1).drop_last() =~= self.entries@.take(i as int));
            }
            if self.entries[i].has_warnings() {
                ws.push(&self.entries[i]);
            }
            i = i + 1;
            proof {
                assert(ws@.map_values(|e: &LayoutEntry| *e) =~= warned_entries(self.entries@.take(i as int)));
            }
        }
        assert(self.entries@.take(i as int) =~= self.entries@);
        ws
    }

    /// Returns the count of entries with warnings.
    pub fn warning_count(&self) -> (n: usize)
        ensures
            n == warned_entries(self.entries@).len(),
    {
        let mut n: usize = 0;
        let mut i: usize = 0;
        while i < self.entries.len()
            invariant
                i <= self.entries@.len(),
                n == warned_entries(self.entries@.take(i as int)).len(),
                n <= i,
            decreases self.entries@.len() - i,
        {
            proof {
                reveal(Seq::filter);
                assert(self.entries@.take(i + 1).drop_last() =~= self.entries@.take(i as int));
            }
            if self.entries[i].has_warnings() {
                n = n + 1;
            }
            i = i + 1;
        }
        assert(self.entries@.take(i as int) =~= self.entries@);
        n
    }
}

fn depth_occurs_after(entries: &Vec<LayoutEntry>, i: usize, d: usize) -> (b: bool)
    requires
        i < entries@.len(),
    ensures
        b == depth_follows(entries@, i as int, d as int),
{
    let n = entries.len();
    let mut j: usize = i + 1;
    while j < n
        invariant
            n == entries@.len(),
            i < j <= entries@.len(),
            forall|k: int| i < k < j ==> #[trigger] entries@[k].depth != d,
        decreases entries@.len() - j,
    {
        if entries[j].depth == d {
            return true;
        }
        j = j + 1;
    }
    false
}

fn sibling_after(entries: &Vec<LayoutEntry>, i: usize, d: usize) -> (b: bool)
    requires
        i < entries@.len(),
    ensures
        b == sibling_follows(entries@, i as int, d as int),
{
    let n = entries.len();
    let mut j: usize = i + 1;
    while j < n && entries[j].depth >= d
        invariant
            n == entries@.len(),
            i < j <= entries@.len(),
            forall|k: int| i < k < j ==> #[trigger] entries@[k].depth > d,
        decreases entries@.len() - j,
    {
        if entries[j].depth == d {
            assert(forall|k: int| i < k < j ==> #[trigger] entries@[k].depth >= d);
            return true;
        }
        j = j + 1;
    }
    proof {
        if sibling_follows(entries@, i as int, d as int) {
            let w = choose|w: int|
                i < w < entries@.len() && #[trigger] entries@[w].depth == d && (forall|k: int|
                    i < k < w ==> #[trigger] entries@[k].depth >= d);
            if w > j {
                assert(entries@[j as int].depth >= d);
            }
        }
    }
    false
}

impl LayoutDump {
    /// Create indentation with tree characters.
    fn make_indent(&self, current_idx: usize, depth: usize) -> (s: String)
        requires
            depth == 0 || current_idx < self.entries@.len(),
        ensures
            s@ == indent_at(self.entries@, current_idx as int, depth as int),
    {
        if depth == 0 {
            return String::new();
        }
        let mut indent = String::new();
        let mut level: usize = 0;
        while level < depth - 1
            invariant
                0 < depth,
                level <= depth - 1,
                current_idx < self.entries@.len(),
                indent@ == rails(self.entries@, current_idx as int, level as nat),
            decreases depth - 1 - level,
        {
            if depth_occurs_after(&self.entries, current_idx, level + 1) {
                indent.append("|  ");
            } else {
                indent.append("   ");
            }
            level = level + 1;
        }
        if sibling_after(&self.entries, current_idx, depth) {
            indent.append("|- ");
        } else {
            indent.append("`- ");
        }
        indent
    }

    /// Format as a tree string with ASCII art.
    fn format_tree(&self) -> (s: String)
        ensures
            s@ == dump_text(self.viewport, self.entries@),
    {
        let mut output = String::new();
        output.append("[Viewport: ");
        output.append(self.viewport.width.as_str());
        output.append("x");
        output.append(self.viewport.height.as_str());
        output.append("]\n\n");
        let total = self.entries.len();
        let with_warnings = self.warning_count();
        output.append("Found ");
        output.append(decimal_text(total).as_str());
        if with_warnings > 0 {
            output.append(" widgets, ");
            output.append(decimal_text(with_warnings).as_str());
            output.append(" with warnings\n\n");
        } else {
            output.append(" widgets, no warnings\n\n");
        }
        let ghost head = viewport_header(self.viewport) + summary(
            total as nat,
            with_warnings as nat,
        );
        assert(output@ =~= head);
        let mut i: usize = 0;
        while i < total
            invariant
                total == self.entries@.len(),
                i <= total,
                output@ == head + tree_lines(self.entries@, i as nat),
            decreases total - i,
        {
            let indent = self.make_indent(i, self.entries[i].depth);
            let line = format_entry(&self.entries[i], indent.as_str());
            output.append(line.as_str());
            i = i + 1;
            assert(output@ =~= head + tree_lines(self.entries@, i as nat));
        }
        output
    }

    /// The dump as text: viewport header, summary and one line per entry.
    pub fn to_string(&self) -> (s: String)
        ensures
            s@ == dump_text(self.viewport, self.entries@),
    {
        self.format_tree()
    }
}

/// The warning rules never contradict themselves: `Invisible` comes exactly
/// when both sides are zero and then replaces the two zero-side warnings;
/// `Offscreen` and `PartiallyOffscreen` never come together; no warning
/// comes twice; and a widget gets no warning exactly when no check fires.
pub proof fn lemma_warning_rules(c: BoundsChecks)
    ensures
        warnings_for(c).contains(LayoutWarning::Invisible) <==> (c.width_is_zero && c.height_is_zero),
        warnings_for(c).contains(LayoutWarning::Invisible) ==> !warnings_for(c).contains(
            LayoutWarning::ZeroWidth,
        ) && !warnings_for(c).contains(LayoutWarning::ZeroHeight),
        !(warnings_for(c).contains(LayoutWarning::Offscreen) && warnings_for(c).contains(
            LayoutWarning::PartiallyOffscreen,
        )),
        warnings_for(c).no_duplicates(),
        warnings_for(c).len() == 0 <==> !(c.width_is_zero || c.height_is_zero || is_too_small(c)
            || c.x_is_negative || c.y_is_negative || c.past_right_edge || c.past_bottom_edge),
{
    let ws = warnings_for(c);
    let sz = size_warnings(c);
    let sm = if is_too_small(c) { seq![LayoutWarning::TooSmall] } else { Seq::<LayoutWarning>::empty() };
    let ps = position_warnings(c);
    assert(ws =~= sz + sm + ps);
    assert forall|w: LayoutWarning| ws.contains(w) <==> (sz.contains(w) || sm.contains(w) || ps.contains(w)) by {
        if ws.contains(w) {
            let k = choose|k: int| 0 <= k < ws.len() && ws[k] == w;
            if k < sz.len() {
                assert(sz[k] == w);
            } else if k < sz.len() + sm.len() {
                assert(sm[k - sz.len()] == w);
            } else {
                assert(ps[k - sz.len() - sm.len()] == w);
            }
        }
        if sz.contains(w) {
            let k = choose|k: int| 0 <= k < sz.len() && sz[k] == w;
            assert(ws[k] == w);
        }
        if sm.contains(w) {
            let k = choose|k: int| 0 <= k < sm.len() && sm[k] == w;
            assert(ws[sz.len() + k] == w);
        }
        if ps.contains(w) {
            let k = choose|k: int| 0 <= k < ps.len() && ps[k] == w;
            assert(ws[sz.len() + sm.len() + k] == w);
        }
    }
    if c.width_is_zero && c.height_is_zero {
        assert(sz =~= seq![LayoutWarning::Invisible]);
        assert(sz[0] == LayoutWarning::Invisible);
    } else if c.width_is_zero && !c.height_is_zero {
        assert(sz =~= seq![LayoutWarning::ZeroWidth]);
        assert(sz[0] == LayoutWarning::ZeroWidth);
    } else if !c.width_is_zero && c.height_is_zero {
        assert(sz =~= seq![LayoutWarning::ZeroHeight]);
        assert(sz[0] == LayoutWarning::ZeroHeight);
    } else {
        assert(sz =~= Seq::<LayoutWarning>::empty());
    }
    if is_too_small(c) {
        assert(sm[0] == LayoutWarning::TooSmall);
    }
    if c.x_is_negative || c.y_is_negative {
        assert(ps[0] == LayoutWarning::Offscreen);
    } else if c.past_right_edge || c.past_bottom_edge {
        assert(ps[0] == LayoutWarning::PartiallyOffscreen);
    }
    assert forall|i: int, j: int| 0 <= i < ws.len() && 0 <= j < ws.len() && i != j implies ws[i]
        != ws[j] by {
        assert(sz.len() <= 1 || (sz[0] == LayoutWarning::ZeroWidth && sz[1] == LayoutWarning::ZeroHeight));
    }
}

/// The position of a warning in a widget's list: size warnings first,
/// then `TooSmall`, then the position warnings.
pub open spec fn warning_rank(w: LayoutWarning) -> int {
    match w {
        LayoutWarning::Invisible => 0,
        LayoutWarning::ZeroWidth => 1,
        LayoutWarning::ZeroHeight => 2,
        LayoutWarning::TooSmall => 3,
        LayoutWarning::Offscreen => 4,
        LayoutWarning::PartiallyOffscreen => 5,
    }
}

/// Which warnings a widget gets, check by check: `Invisible` when both
/// sides are zero, `ZeroWidth` or `ZeroHeight` when only that side is zero,
/// `TooSmall` when a side lies strictly between 0 and 1 pixel, `Offscreen`
/// when `x` or `y` is negative, and `PartiallyOffscreen` when neither is
/// but the widget passes the right or bottom edge of the viewport. The
/// warnings come in that order, each at most once.
pub proof fn lemma_warning_membership(c: BoundsChecks)
    ensures
        warnings_for(c).contains(LayoutWarning::Invisible) <==> (c.width_is_zero && c.height_is_zero),
        warnings_for(c).contains(LayoutWarning::ZeroWidth) <==> (c.width_is_zero && !c.height_is_zero),
        warnings_for(c).contains(LayoutWarning::ZeroHeight) <==> (c.height_is_zero && !c.width_is_zero),
        warnings_for(c).contains(LayoutWarning::TooSmall) <==> ((c.width_is_positive
            && c.width_below_one) || (c.height_is_positive && c.height_below_one)),
        warnings_for(c).contains(LayoutWarning::Offscreen) <==> (c.x_is_negative || c.y_is_negative),
        warnings_for(c).contains(LayoutWarning::PartiallyOffscreen) <==> (!c.x_is_negative
            && !c.y_is_negative && (c.past_right_edge || c.past_bottom_edge)),
        forall|i: int, j: int|
            0 <= i < j < warnings_for(c).len() ==> warning_rank(#[trigger] warnings_for(c)[i])
                < warning_rank(#[trigger] warnings_for(c)[j]),
{
    let ws = warnings_for(c);
    let sz = size_warnings(c);
    let sm = if is_too_small(c) { seq![LayoutWarning::TooSmall] } else { Seq::<LayoutWarning>::empty() };
    let ps = position_warnings(c);
    assert(ws =~= sz + sm + ps);
    assert forall|w: LayoutWarning| ws.contains(w) <==> (sz.contains(w) || sm.contains(w) || ps.contains(w)) by {
        if ws.contains(w) {
            let k = choose|k: int| 0 <= k < ws.len() && ws[k] == w;
            if k < sz.len() {
                assert(sz[k] == w);
            } else if k < sz.len() + sm.len() {
                assert(sm[k - sz.len()] == w);
            } else {
                assert(ps[k - sz.len() - sm.len()] == w);
            }
        }
        if sz.contains(w) {
            let k = choose|k: int| 0 <= k < sz.len() && sz[k] == w;
            assert(ws[k] == w);
        }
        if sm.contains(w) {
            let k = choose|k: int| 0 <= k < sm.len() && sm[k] == w;
            assert(ws[sz.len() + k] == w);
        }
        if ps.contains(w) {
            let k = choose|k: int| 0 <= k < ps.len() && ps[k] == w;
            assert(ws[sz.len() + sm.len() + k] == w);
        }
    }
    if c.width_is_zero && c.height_is_zero {
        assert(sz =~= seq![LayoutWarning::Invisible]);
        assert(sz[0] == LayoutWarning::Invisible);
    } else if c.width_is_zero && !c.height_is_zero {
        assert(sz =~= seq![LayoutWarning::ZeroWidth]);
        assert(sz[0] == LayoutWarning::ZeroWidth);
    } else if !c.width_is_zero && c.height_is_zero {
        assert(sz =~= seq![LayoutWarning::ZeroHeight]);
        assert(sz[0] == LayoutWarning::ZeroHeight);
    } else {
        assert(sz =~= Seq::<LayoutWarning>::empty());
    }
    if is_too_small(c) {
        assert(sm[0] == LayoutWarning::TooSmall);
    }
    if c.x_is_negative || c.y_is_negative {
        assert(ps[0] == LayoutWarning::Offscreen);
    } else if c.past_right_edge || c.past_bottom_edge {
        assert(ps[0] == LayoutWarning::PartiallyOffscreen);
    }
    assert forall|i: int, j: int| 0 <= i < j < ws.len() implies warning_rank(#[trigger] ws[i])
        < warning_rank(#[trigger] ws[j]) by {
        assert(forall|k: int| 0 <= k < sz.len() ==> warning_rank(#[trigger] sz[k]) <= 2);
        assert(forall|k: int| 0 <= k < ps.len() ==> warning_rank(#[trigger] ps[k]) >= 4);
        assert(sz.len() <= 1 || (sz[0] == LayoutWarning::ZeroWidth && sz[1] == LayoutWarning::ZeroHeight));
        assert(ps.len() <= 1);
        assert(sm.len() <= 1);
        if i < sz.len() {
            assert(ws[i] == sz[i]);
        } else if i < sz.len() + sm.len() {
            assert(ws[i] == sm[i - sz.len()]);
        } else {
            assert(ws[i] == ps[i - sz.len() - sm.len()]);
        }
        if j < sz.len() {
            assert(ws[j] == sz[j]);
        } else if j < sz.len() + sm.len() {
            assert(ws[j] == sm[j - sz.len()]);
        } else {
            assert(ws[j] == ps[j - sz.len() - sm.len()]);
        }
    }
}

/// Long extra text never shows more than 30 characters, and text of at
/// most 30 characters is shown whole; longer text shows exactly its first
/// 27 characters followed by three dots.
pub proof fn lemma_truncation(s: Seq<char>)
    ensures
        truncated(s).len() <= 30,
        s.len() <= 30 ==> truncated(s) == s,
        s.len() > 30 ==> truncated(s).take(27) == s.take(27),
        s.len() > 30 ==> truncated(s).len() == 30 && truncated(s)[27] == '.' && truncated(s)[28] == '.'
            && truncated(s)[29] == '.',
        forall|k: int| 0 <= k < 27 && k < s.len() ==> #[trigger] truncated(s)[k] == s[k],
{
    reveal_strlit("...");
    if s.len() > 30 {
        assert((s.take(27) + "..."@).take(27) =~= s.take(27));
        assert forall|k: int| 0 <= k < 27 && k < s.len() implies #[trigger] truncated(s)[k] == s[k] by {
            assert(truncated(s)[k] == s.take(27)[k]);
        }
    }
}

/// The warned entries are exactly the entries that carry warnings: there
/// are never more of them than entries, each has warnings, and there are
/// none exactly when no entry has a warning.
pub proof fn lemma_warned_entries(entries: Seq<LayoutEntry>)
    ensures
        warned_entries(entries).len() <= entries.len(),
        forall|i: int| 0 <= i < warned_entries(entries).len() ==> has_warnings(
            #[trigger] warned_entries(entries)[i],
        ),
        warned_entries(entries).len() == 0 <==> forall|i: int| 0 <= i < entries.len() ==> !has_warnings(
            #[trigger] entries[i],
        ),
        warned_entries(entries) == entries.filter(|e: LayoutEntry| e.warnings@.len() > 0),
        forall|i: int| 0 <= i < warned_entries(entries).len() ==> (#[trigger] warned_entries(entries)[i]).warnings@.len() > 0,
        forall|i: int| 0 <= i < entries.len() && (#[trigger] entries[i]).warnings@.len() > 0 ==> warned_entries(entries).contains(entries[i]),
    decreases entries.len(),
{
    reveal(Seq::filter);
    let f = |e: LayoutEntry| has_warnings(e);
    let g = |e: LayoutEntry| e.warnings@.len() > 0;
    assert(f =~= g);
    if entries.len() > 0 {
        let rest = entries.drop_last();
        lemma_warned_entries(rest);
        assert forall|i: int| 0 <= i < rest.len() implies rest[i] == entries[i] by {}
        if warned_entries(entries).len() == 0 {
            assert forall|i: int| 0 <= i < entries.len() implies !has_warnings(#[trigger] entries[i]) by {
                if i < rest.len() {
                    assert(rest[i] == entries[i]);
                }
            }
        }
        let last = entries[entries.len() - 1];
        assert forall|i: int| 0 <= i < entries.len() && (#[trigger] entries[i]).warnings@.len() > 0 implies warned_entries(
            entries,
        ).contains(entries[i]) by {
            if i < rest.len() {
                assert(rest[i] == entries[i]);
                let k = choose|k: int| 0 <= k < warned_entries(rest).len() && warned_entries(rest)[k] == rest[i];
                if has_warnings(last) {
                    assert(warned_entries(entries) == warned_entries(rest).push(last));
                    assert(warned_entries(entries)[k] == rest[i]);
                } else {
                    assert(warned_entries(entries) == warned_entries(rest));
                }
            } else {
                assert(warned_entries(entries) == warned_entries(rest).push(last));
                assert(warned_entries(entries)[warned_entries(rest).len() as int] == last);
            }
        }
    }
}

/// The indentation of an entry is three characters per level of depth,
/// and a child's branch is `` `- `` exactly when no later sibling follows.
pub proof fn lemma_indent_shape(entries: Seq<LayoutEntry>, i: int)
    requires
        0 <= i < entries.len(),
    ensures
        indent_text(entries, i).len() == 3 * entries[i].depth,
        entries[i].depth > 0 ==> (indent_text(entries, i).skip(3 * entries[i].depth - 3) == (if sibling_follows(
            entries,
            i,
            entries[i].depth as int,
        ) {
            "|- "@
        } else {
            "`- "@
        })),
        entries[i].depth > 0 ==> (indent_text(entries, i).skip(3 * entries[i].depth - 3) == (if exists|j: int|
            i < j < entries.len() && #[trigger] entries[j].depth == entries[i].depth && (forall|k: int|
                i < k < j ==> #[trigger] entries[k].depth >= entries[i].depth) {
            "|- "@
        } else {
            "`- "@
        })),
{
    reveal_strlit("|- ");
    reveal_strlit("`- ");
    let d = entries[i].depth;
    if d > 0 {
        lemma_rails_len(entries, i, (d - 1) as nat);
        let r = rails(entries, i, (d - 1) as nat);
        let b = if sibling_follows(entries, i, d as int) { "|- "@ } else { "`- "@ };
        assert((r + b).skip(3 * d - 3) =~= b);
    }
}

proof fn lemma_rails_segment(entries: Seq<LayoutEntry>, i: int, n: nat, l: int)
    requires
        0 <= l < n,
    ensures
        rails(entries, i, n).subrange(3 * l, 3 * l + 3) == rail(entries, i, l),
    decreases n,
{
    reveal_strlit("|  ");
    reveal_strlit("   ");
    lemma_rails_len(entries, i, (n - 1) as nat);
    let prev = rails(entries, i, (n - 1) as nat);
    let r = rail(entries, i, n - 1);
    if l == n - 1 {
        assert((prev + r).subrange(3 * l, 3 * l + 3) =~= r);
    } else {
        lemma_rails_segment(entries, i, (n - 1) as nat, l);
        assert((prev + r).subrange(3 * l, 3 * l + 3) =~= prev.subrange(3 * l, 3 * l + 3));
    }
}

/// Before the branch, the indentation of an entry at depth `d` holds one
/// three-character cell per enclosing level `l < d - 1`: a vertical rail
/// `|  ` exactly when some later entry, anywhere after it, sits at depth
/// `l + 1`, and blanks otherwise.
pub proof fn lemma_indent_rails(entries: Seq<LayoutEntry>, i: int, l: int)
    requires
        0 <= i < entries.len(),
        0 <= l < entries[i].depth - 1,
    ensures
        indent_text(entries, i).subrange(3 * l, 3 * l + 3) == (if exists|j: int|
            i < j < entries.len() && #[trigger] entries[j].depth == l + 1 {
            "|  "@
        } else {
            "   "@
        }),
{
    let d = entries[i].depth;
    let n = (d - 1) as nat;
    lemma_rails_len(entries, i, n);
    lemma_rails_segment(entries, i, n, l);
    let r = rails(entries, i, n);
    let b = if sibling_follows(entries, i, d as int) { "|- "@ } else { "`- "@ };
    assert((r + b).subrange(3 * l, 3 * l + 3) =~= r.subrange(3 * l, 3 * l + 3));
}

proof fn lemma_rails_len(entries: Seq<LayoutEntry>, i: int, n: nat)
    ensures
        rails(entries, i, n).len() == 3 * n,
    decreases n,
{
    reveal_strlit("|  ");
    reveal_strlit("   ");
    if n > 0 {
        lemma_rails_len(entries, i, (n - 1) as nat);
    }
}

/// Every line of the tree starts with `!` exactly when its entry has
/// warnings.
pub proof fn lemma_line_marks_warnings(e: LayoutEntry, indent: Seq<char>)
    ensures
        entry_line(e, indent).len() > 0,
        entry_line(e, indent)[0] == '!' <==> has_warnings(e),
        entry_line(e, indent)[0] == '!' <==> e.warnings@.len() > 0,
{
    reveal_strlit("! ");
    reveal_strlit("  ");
    let p = warning_prefix(e);
    let line = entry_line(e, indent);
    assert(line[0] == p[0]);
}

proof fn lemma_same_warned_count(a: Seq<LayoutEntry>, b: Seq<LayoutEntry>)
    requires
        same_entries(a, b),
    ensures
        warned_entries(a).len() == warned_entries(b).len(),
    decreases a.len(),
{
    reveal(Seq::filter);
    if a.len() > 0 {
        assert(same_entry(a[a.len() - 1], b[b.len() - 1]));
        assert forall|i: int| 0 <= i < a.drop_last().len() implies same_entry(
            #[trigger] a.drop_last()[i],
            b.drop_last()[i],
        ) by {
            assert(same_entry(a[i], b[i]));
        }
        lemma_same_warned_count(a.drop_last(), b.drop_last());
    }
}

proof fn lemma_same_rails(a: Seq<LayoutEntry>, b: Seq<LayoutEntry>, i: int, n: nat)
    requires
        same_entries(a, b),
        0 <= i,
    ensures
        rails(a, i, n) == rails(b, i, n),
    decreases n,
{
    if n > 0 {
        lemma_same_rails(a, b, i, (n - 1) as nat);
        let d = n as int;
        if depth_follows(a, i, d) {
            let j = choose|j: int| i < j < a.len() && #[trigger] a[j].depth == d;
            assert(same_entry(a[j], b[j]));
        }
        if depth_follows(b, i, d) {
            let j = choose|j: int| i < j < b.len() && #[trigger] b[j].depth == d;
            assert(same_entry(a[j], b[j]));
        }
    }
}

proof fn lemma_same_indent(a: Seq<LayoutEntry>, b: Seq<LayoutEntry>, i: int)
    requires
        same_entries(a, b),
        0 <= i < a.len(),
    ensures
        indent_text(a, i) == indent_text(b, i),
{
    assert(same_entry(a[i], b[i]));
    let d = a[i].depth;
    if d > 0 {
        lemma_same_rails(a, b, i, (d - 1) as nat);
        if sibling_follows(a, i, d as int) {
            let j = choose|j: int|
                i < j < a.len() && #[trigger] a[j].depth == d && (forall|k: int|
                    i < k < j ==> #[trigger] a[k].depth >= d);
            assert(same_entry(a[j], b[j]));
            assert forall|k: int| i < k < j implies #[trigger] b[k].depth >= d by {
                assert(same_entry(a[k], b[k]));
            }
        }
        if sibling_follows(b, i, d as int) {
            let j = choose|j: int|
                i < j < b.len() && #[trigger] b[j].depth == d && (forall|k: int|
                    i < k < j ==> #[trigger] b[k].depth >= d);
            assert(same_entry(a[j], b[j]));
            assert forall|k: int| i < k < j implies #[trigger] a[k].depth >= d by {
                assert(same_entry(a[k], b[k]));
            }
        }
    }
}

proof fn lemma_same_lines(a: Seq<LayoutEntry>, b: Seq<LayoutEntry>, n: nat)
    requires
        same_entries(a, b),
        n <= a.len(),
    ensures
        tree_lines(a, n) == tree_lines(b, n),
    decreases n,
{
    if n > 0 {
        lemma_same_lines(a, b, (n - 1) as nat);
        lemma_same_indent(a, b, n - 1);
        assert(same_entry(a[n - 1], b[n - 1]));
    }
}

/// Entries that hold the same values render the same dump text, so a
/// copy of the collected entries prints exactly like the originals.
pub proof fn lemma_same_entries_same_text(viewport: ViewportLabel, a: Seq<LayoutEntry>, b: Seq<LayoutEntry>)
    requires
        same_entries(a, b),
    ensures
        dump_text(viewport, a) == dump_text(viewport, b),
{
    lemma_same_warned_count(a, b);
    lemma_same_lines(a, b, a.len());
}

} // verus!
