# drakonix

The verified core of a terminal dashboard that shows weather, Google Calendar
events and RSS feeds in tiling panes.

- `src/tiling.rs` — the binary space partition of panes: split, close, focus
  moves and tab changes, with their laws (closing undoes a split, focus moves
  are inverse, a split duplicates the focused pane, ...).
- `src/app.rs` — the application state: key handling as a state machine whose
  effect is given by `key_effect`, fetch results taken in by `apply_update`,
  and the refresh plan that says which fetches to start.
- `src/api/` — the pure parts of the integrations: OAuth URLs, the callback
  check, token plans, event times (`calendar.rs`); feed items (`rss.rs`); the
  forecast (`weather.rs`); and the trusted calls into `urlencoding`, `chrono`
  and `feed-rs` (`urlcodec.rs`, `timefmt.rs`, `rss.rs`).
- `src/config.rs` — configuration from the raw environment values.
- `src/ui.rs` — geometry and labels of the panes, decided apart from drawing
  them.
- `src/screens.rs` — which screen the RSS and calendar tabs show for the state
  of their data, with the text on it, and the day columns of the calendar.
- `src/text.rs` — text helpers (trimming, splitting, decimal and hex digits).
- `app/` — the program: terminal, event loop, network and file work, drawing
  with ratatui.

Temperatures and split ratios are floating-point numbers; the library keeps
them as IEEE-754 bit patterns and never computes with them.
