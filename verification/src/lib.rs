//! Layout inspection for iced user interfaces: a verified model of the
//! layout dump (warning rules, tree rendering), of the widget-tree walk,
//! and of the decisions taken by the debug server and its client.

pub mod client;
pub mod codec;
pub mod operation;
pub mod output;
pub mod server;
pub mod socket;
pub mod text;

pub use operation::{LayoutDumper, LayoutInspector};
pub use output::{
    Bounds, BoundsChecks, DumpColor, LayoutDump, LayoutEntry, LayoutWarning, ViewportLabel,
    WidgetKind,
};
