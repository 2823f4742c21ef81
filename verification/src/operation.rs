//! The widget-tree walk that collects layout entries.
//!
//! The walk is driven from outside: for each widget visited, the caller
//! reports its kind, id, rendered bounds and bounds checks; entering and
//! leaving a widget's children moves the current depth.

use vstd::prelude::*;

use crate::output::{
    same_entries, same_entry, warnings_for, Bounds, BoundsChecks, LayoutDump, LayoutEntry,
    ViewportLabel, WidgetKind,
};

verus! {

/// Entry `e` records a visit of a widget of `kind` at `depth`.
pub open spec fn records(
    e: LayoutEntry,
    depth: usize,
    kind: WidgetKind,
    id: Option<String>,
    bounds: Bounds,
    checks: BoundsChecks,
    extra: Option<String>,
) -> bool {
    &&& e.depth == depth
    &&& e.kind == kind
    &&& e.id == id
    &&& e.bounds == bounds
    &&& e.extra == extra
    &&& e.warnings@ == warnings_for(checks)
    &&& e.background.is_none()
    &&& e.text_color.is_none()
}

/// The extra text of a scrollable: `content: WxH`.
pub open spec fn scroll_extra(content_width: Seq<char>, content_height: Seq<char>) -> Seq<char> {
    "content: "@ + content_width + "x"@ + content_height
}

/// The extra text of a focusable: `FOCUSED` only while it has focus.
pub open spec fn focus_extra(focused: bool) -> Option<Seq<char>> {
    if focused { Some("FOCUSED"@) } else { None }
}

/// The extra text of a text widget: its content, or `(empty)`.
pub open spec fn text_extra(text: Seq<char>) -> Seq<char> {
    if text.len() == 0 { "(empty)"@ } else { text }
}

/// An optional string by its characters.
pub open spec fn chars_of(s: Option<String>) -> Option<Seq<char>> {
    match s {
        Some(t) => Some(t@),
        None => None,
    }
}

/// `b` is `a` after recording some visits: same viewport and depth, the old
/// entries kept in place, each new entry at the current depth.
pub open spec fn appended_at_depth(a: LayoutInspector, b: LayoutInspector) -> bool {
    &&& b.viewport == a.viewport
    &&& b.depth == a.depth
    &&& a.entries@.len() <= b.entries@.len()
    &&& b.entries@.take(a.entries@.len() as int) == a.entries@
    &&& forall|k: int| a.entries@.len() <= k < b.entries@.len() ==> #[trigger] b.entries@[k].depth == a.depth
}

/// `b` is `a` one level further down the tree, nothing recorded.
pub open spec fn stepped_down(a: LayoutInspector, b: LayoutInspector) -> bool {
    b.viewport == a.viewport && b.entries@ == a.entries@ && b.depth == a.depth + 1
}

/// `b` is `a` one level further up the tree, nothing recorded.
pub open spec fn stepped_up(a: LayoutInspector, b: LayoutInspector) -> bool {
    b.viewport == a.viewport && b.entries@ == a.entries@ && b.depth == a.depth - 1
}

/// Collects layout information while the widget tree is walked.
pub struct LayoutInspector {
    pub viewport: ViewportLabel,
    pub entries: Vec<LayoutEntry>,
    pub depth: usize,
}

impl LayoutInspector {
    /// Create a new layout inspector for the given viewport.
    pub fn new(viewport: ViewportLabel) -> (i: Self)
        ensures
            i.viewport == viewport,
            i.entries@.len() == 0,
            i.depth == 0,
    {
        LayoutInspector { viewport, entries: Vec::new(), depth: 0 }
    }

    /// Consume the inspector and return the layout dump.
    pub fn into_dump(self) -> (d: LayoutDump)
        ensures
            d.viewport == self.viewport,
            d.entries@ == self.entries@,
    {
        let mut dump = LayoutDump::new(self.viewport);
        dump.entries = self.entries;
        dump
    }

    /// Record a widget at the current depth.
    pub fn add_entry(
        &mut self,
        kind: WidgetKind,
        id: Option<String>,
        bounds: Bounds,
        checks: BoundsChecks,
        extra: Option<String>,
    )
        ensures
            final(self).viewport == old(self).viewport,
            final(self).depth == old(self).depth,
            final(self).entries@.len() == old(self).entries@.len() + 1,
            final(self).entries@.drop_last() == old(self).entries@,
            appended_at_depth(*old(self), *final(self)),
            records(final(self).entries@.last(), old(self).depth, kind, id, bounds, checks, extra),
    {
        let entry = LayoutEntry::new(self.depth, kind, id, bounds, checks, extra);
        self.entries.push(entry);
        assert(self.entries@.drop_last() =~= old(self).entries@);
        assert(self.entries@.take(old(self).entries@.len() as int) =~= old(self).entries@);
    }

    /// Step down into the children of the widget just visited.
    pub fn enter_children(&mut self)
        requires
            old(self).depth < usize::MAX,
        ensures
            stepped_down(*old(self), *final(self)),
    {
        self.depth = self.depth + 1;
    }

    /// Step back up after the children have been visited.
    pub fn leave_children(&mut self)
        requires
            old(self).depth > 0,
        ensures
            stepped_up(*old(self), *final(self)),
    {
        self.depth = self.depth - 1;
    }

    /// Record a container.
    pub fn container(&mut self, id: Option<String>, bounds: Bounds, checks: BoundsChecks)
        ensures
            final(self).viewport == old(self).viewport,
            final(self).depth == old(self).depth,
            final(self).entries@.drop_last() == old(self).entries@,
            appended_at_depth(*old(self), *final(self)),
            final(self).entries@.len() == old(self).entries@.len() + 1,
            records(final(self).entries@.last(), old(self).depth, WidgetKind::Container, id, bounds, checks, None),
    {
        self.add_entry(WidgetKind::Container, id, bounds, checks, None);
    }

    /// Record a scrollable, with the rendered size of its content.
    pub fn scrollable(
        &mut self,
        id: Option<String>,
        bounds: Bounds,
        checks: BoundsChecks,
        content_width: &str,
        content_height: &str,
    )
        ensures
            final(self).viewport == old(self).viewport,
            final(self).depth == old(self).depth,
            final(self).entries@.drop_last() == old(self).entries@,
            appended_at_depth(*old(self), *final(self)),
            final(self).entries@.len() == old(self).entries@.len() + 1,
            records(final(self).entries@.last(), old(self).depth, WidgetKind::Scrollable, id, bounds, checks, final(self).entries@.last().extra),
            chars_of(final(self).entries@.last().extra) == Some(scroll_extra(content_width@, content_height@)),
    {
        let mut extra = String::new();
        extra.append("content: ");
        extra.append(content_width);
        extra.append("x");
        extra.append(content_height);
        self.add_entry(WidgetKind::Scrollable, id, bounds, checks, Some(extra));
    }

    /// Record a focusable widget; `FOCUSED` marks the one that has focus.
    pub fn focusable(&mut self, id: Option<String>, bounds: Bounds, checks: BoundsChecks, focused: bool)
        ensures
            final(self).viewport == old(self).viewport,
            final(self).depth == old(self).depth,
            final(self).entries@.drop_last() == old(self).entries@,
            appended_at_depth(*old(self), *final(self)),
            final(self).entries@.len() == old(self).entries@.len() + 1,
            records(final(self).entries@.last(), old(self).depth, WidgetKind::Focusable, id, bounds, checks, final(self).entries@.last().extra),
            chars_of(final(self).entries@.last().extra) == focus_extra(focused),
    {
        let extra = if focused {
            let mut s = String::new();
            s.append("FOCUSED");
            Some(s)
        } else {
            None
        };
        self.add_entry(WidgetKind::Focusable, id, bounds, checks, extra);
    }

    /// Record a text input.
    pub fn text_input(&mut self, id: Option<String>, bounds: Bounds, checks: BoundsChecks)
        ensures
            final(self).viewport == old(self).viewport,
            final(self).depth == old(self).depth,
            final(self).entries@.drop_last() == old(self).entries@,
            appended_at_depth(*old(self), *final(self)),
            final(self).entries@.len() == old(self).entries@.len() + 1,
            records(final(self).entries@.last(), old(self).depth, WidgetKind::TextInput, id, bounds, checks, None),
    {
        self.add_entry(WidgetKind::TextInput, id, bounds, checks, None);
    }

    /// Record a text widget with its content (`(empty)` when it has none).
    pub fn text(&mut self, id: Option<String>, bounds: Bounds, checks: BoundsChecks, text: &str)
        ensures
            final(self).viewport == old(self).viewport,
            final(self).depth == old(self).depth,
            final(self).entries@.drop_last() == old(self).entries@,
            appended_at_depth(*old(self), *final(self)),
            final(self).entries@.len() == old(self).entries@.len() + 1,
            records(final(self).entries@.last(), old(self).depth, WidgetKind::Text, id, bounds, checks, final(self).entries@.last().extra),
            chars_of(final(self).entries@.last().extra) == Some(text_extra(text@)),
            text@.len() > 0 ==> chars_of(final(self).entries@.last().extra) == Some(text@),
            text@.len() == 0 ==> chars_of(final(self).entries@.last().extra) == Some("(empty)"@),
    {
        let mut extra = String::new();
        if text.unicode_len() == 0 {
            extra.append("(empty)");
        } else {
            extra.append(text);
        }
        self.add_entry(WidgetKind::Text, id, bounds, checks, Some(extra));
    }

    /// Record a custom widget.
    pub fn custom(&mut self, id: Option<String>, bounds: Bounds, checks: BoundsChecks)
        ensures
            final(self).viewport == old(self).viewport,
            final(self).depth == old(self).depth,
            final(self).entries@.drop_last() == old(self).entries@,
            appended_at_depth(*old(self), *final(self)),
            final(self).entries@.len() == old(self).entries@.len() + 1,
            records(final(self).entries@.last(), old(self).depth, WidgetKind::Custom, id, bounds, checks, None),
    {
        self.add_entry(WidgetKind::Custom, id, bounds, checks, None);
    }

    /// A dump holding copies of the entries collected so far.
    pub fn snapshot(&self) -> (d: LayoutDump)
        ensures
            d.viewport == self.viewport,
            same_entries(d.entries@, self.entries@),
    {
        let mut entries: Vec<LayoutEntry> = Vec::new();
        let mut i: usize = 0;
        while i < self.entries.len()
            invariant
                i <= self.entries@.len(),
                entries@.len() == i,
                forall|k: int| 0 <= k < i ==> same_entry(#[trigger] entries@[k], self.entries@[k]),
            decreases self.entries@.len() - i,
        {
            entries.push(self.entries[i].duplicate());
            i = i + 1;
        }
        LayoutDump { viewport: self.viewport.duplicate(), entries }
    }
}

/// Collects layout information and hands it out as a [`LayoutDump`]
/// when the walk finishes.
pub struct LayoutDumper {
    inspector: LayoutInspector,
}

impl LayoutDumper {
    /// The inspector that does the collecting.
    pub closed spec fn state(&self) -> LayoutInspector {
        self.inspector
    }

    /// Create a new layout dumper for the given viewport.
    pub fn new(viewport: ViewportLabel) -> (d: Self)
        ensures
            d.state().viewport == viewport,
            d.state().entries@.len() == 0,
            d.state().depth == 0,
    {
        LayoutDumper { inspector: LayoutInspector::new(viewport) }
    }

    /// The collecting state, for recording visits.
    pub fn inspector_mut(&mut self) -> (i: &mut LayoutInspector)
        ensures
            *i == old(self).state(),
            final(self).state() == *final(i),
    {
        &mut self.inspector
    }

    /// The dump of everything collected: same viewport, same entries.
    pub fn finish(&self) -> (d: LayoutDump)
        ensures
            d.viewport == self.state().viewport,
            same_entries(d.entries@, self.state().entries@),
    {
        self.inspector.snapshot()
    }
}

/// Recording visit after visit keeps the same shape: the old entries stay
/// in place and every new one sits at the unchanged depth.
pub proof fn lemma_appended_chain(a: LayoutInspector, b: LayoutInspector, c: LayoutInspector)
    requires
        appended_at_depth(a, b),
        appended_at_depth(b, c),
    ensures
        appended_at_depth(a, c),
{
    assert(c.entries@.take(a.entries@.len() as int) =~= b.entries@.take(a.entries@.len() as int));
    assert forall|k: int| a.entries@.len() <= k < c.entries@.len() implies #[trigger] c.entries@[k].depth
        == a.depth by {
        if k < b.entries@.len() {
            assert(c.entries@[k] == b.entries@[k]);
        }
    }
}

/// Visiting a widget's children and coming back: the depth is what it was
/// before, the entries from before are kept, and every entry recorded in
/// between is one level deeper than the parent.
pub proof fn lemma_children_one_level_deeper(
    before: LayoutInspector,
    inside: LayoutInspector,
    visited: LayoutInspector,
    after: LayoutInspector,
)
    requires
        stepped_down(before, inside),
        appended_at_depth(inside, visited),
        stepped_up(visited, after),
    ensures
        after.depth == before.depth,
        after.viewport == before.viewport,
        after.entries@.take(before.entries@.len() as int) == before.entries@,
        forall|k: int| before.entries@.len() <= k < after.entries@.len() ==> #[trigger] after.entries@[k].depth
            == before.depth + 1,
{
}

/// A text widget's content is shown verbatim whenever it has at least one
/// character; `(empty)` stands only for the empty text.
pub proof fn lemma_text_shown_verbatim(text: Seq<char>)
    ensures
        text.len() > 0 ==> text_extra(text) == text,
        text.len() == 0 ==> text_extra(text) == "(empty)"@,
        text_extra(text).len() > 0,
{
    reveal_strlit("(empty)");
}

} // verus!
