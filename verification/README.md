# iced_layout_inspector

Layout debugging for iced applications: a text dump of the widget tree with
bounds and warnings, and a small debug server that lets outside tools ask a
running application for that dump, for a screenshot, or to act on widgets.

- `src/` is the verified library (Verus):
  - `output`: widget kinds, warning rules, entries and the tree rendering;
  - `operation`: the widget-tree walk that records entries and depths;
  - `server`, `client`: the protocol and the decisions taken between a
    request and its response, on both ends;
  - `socket`: socket file names and reading a process id back from them;
  - `codec`: the trusted wrappers around the `image` JPEG encoder and `base64`;
  - `text`: decimal and hexadecimal digits.
- `app/` holds what the library cannot: float geometry and colours, the iced
  `Operation` implementations, file output, and the socket server and client
  (tokio, serde, glob, libc).
- `tests/` runs the library on concrete values.
