# ratzilla_dom

The decisions of a terminal backend that draws into the DOM of a web page,
verified with Verus.

- `src/` keeps the backend's state and decides what work is due on the page. It
  returns that work as a list of effects and never touches a page itself.
- `src/laws/` states what holds of the backend as a whole. First of all: after
  every frame, the page shows what the buffer holds, although rows without
  hyperlinks are updated in place and only the others are rebuilt.
- `src/outside.rs` holds what is taken on trust of `ratatui` and
  `unicode-width`.
- `app/` does the work on a page with `web-sys`, measures the page, and
  implements `ratatui`'s `Backend`.
- `tests/` runs the library, also against a small model of a page.

A draw is a conversation: `DomBackend::advance` takes what happened and returns
what is due next, until the grid is in place. `DomBackend::draw` then takes the
cells of a frame. Each piece of work that was done is reported to
`DomBackend::commit`; where one fails, the rest of its list is not done.
