# ssmtui

A terminal browser for AWS Systems Manager Parameter Store: browse and filter
parameter names, load values lazily in the background, refresh everything,
create parameters in a small vim-like popup, edit values in an external
editor and copy them to the clipboard.

The behaviour is written in Verus and verified; the terminal, the AWS SDK,
threads, files and processes stay in an ordinary Rust front end.

## Layout

- `src/` — the verified library (crate `ssmtui`)
  - `text_edit.rs` — byte-offset cursors on UTF-8 text: moves, insert,
    backspace, delete, line/column; laws that cursors stay on character
    boundaries and that edits undo each other
  - `app.rs` — the application state (`App`) and its mathematical view
    (`AppView`); every operation is specified as a function on the view
  - `keys.rs` — what a key press does, as a step from state and key to the
    next state and the outside work to perform (`KeyAction`)
  - `laws.rs` — properties across operations: filtering shows exactly the
    matches, moves undo each other, every operation keeps the bookkeeping
    consistent, created and refreshed parameters stay selected
  - `ssm_data.rs` — ordering names, worker counts, dealing names to workers,
    lookup batches, merging metadata and values, the type to write a value as
  - `view.rs`, `layout.rs` — what the screen shows and where popups go
  - `tools.rs` — editor and clipboard choice, shell quoting, command line
  - `strings.rs`, `models.rs` — text helpers and the shared data types
- `app/` — the front end: `main.rs` (arguments, event loop), `ssm.rs` (AWS
  calls), `ui.rs` (ratatui drawing), `editor.rs` (editor and clipboard)
- `tests/` — tests of the library
