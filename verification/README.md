# ratatui_tools

Building blocks for terminal user interfaces on top of ratatui, verified with Verus.

* `src/` — the verified library:
  * `text_input.rs`: a single-line text input component and its key mapping;
  * `tilemap.rs`: a widget that draws character tiles inside an optional block;
  * `cells.rs`: a canvas shape that paints cells given by integer indices;
  * `framework.rs`: the routing decisions of an application loop;
  * `event.rs`, `layout.rs`: terminal events, positions and areas as plain values;
  * `draw.rs`: the ratatui types the widgets draw on and the calls they make into ratatui;
  * `lib.rs`: the `Component` trait.
* `app/` — the parts that talk to the terminal and to other threads: the application loop
  (`Framework`, `MessageSender`), event and area conversions, and ratatui's `Widget` and
  `Shape` impls for the tile map and the cells shape.
* `tests/` — tests of the library.
