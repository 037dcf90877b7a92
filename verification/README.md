# tspace_menu

A fuzzy-search command palette for a zellij-based terminal workspace,
written in Verus: the palette's logic is proved against its contracts.

## Layout

- `src/` — the verified library.
  - `commands.rs` — the registry of 33 commands in five categories, with
    their badges, icons and priorities; proofs that ids and actions are
    distinct, that every category is represented and that no brief or doc
    is blank.
  - `screens/command_palette.rs` — filtering and ranking (fuzzy match on
    the brief, case-insensitive substring bonus, keyword fallback), the key
    map, query editing, selection movement with wrap-around and scrolling,
    mouse hit rows, and the layout of a frame.
  - `screens/ranking.rs` — the ranking order and a verified insertion sort.
  - `screens/render.rs` — the view model of a frame: styled lines, result
    rows with highlighted matches, the no-match message and the footer.
  - `click.rs` — click regions and first-hit testing.
  - `backend.rs` — the ANSI escapes of the terminal backend and its state
    (size and last cursor position).
  - `plugin.rs` — what each host event does to the plugin state, as a
    function from state and event to next state and outcome.
  - `text.rs`, `keys.rs` — string helpers and key events.
- `tests/` — tests of the library.
- `app/` — the zellij plugin itself: host events, the ratatui terminal,
  printing, and running commands through the plugin API.
