//! What a key press does: the decisions of the main loop as a function from
//! state and key to the next state and the outside work to perform.
use vstd::prelude::*;
use crate::app;
use crate::app::{App, AppView, CreateRequest};
use crate::models;
use crate::models::{CreateField, MetaView, ParameterMeta, ValueEditorMode};
use crate::strings::concat3;
use crate::text_edit;
use crate::text_edit::{
    backspace_at_cursor, delete_at_cursor, insert_char_at_cursor, move_cursor_down,
    move_cursor_left, move_cursor_line_end, move_cursor_line_start, move_cursor_right,
    move_cursor_up,
};

verus! {

/// The keys the application tells apart.
#[derive(Clone, Copy, PartialEq, Eq, Structural)]
pub enum KeyCode {
    Char(char),
    Enter,
    Esc,
    Tab,
    Backspace,
    Delete,
    Left,
    Right,
    Up,
    Down,
    Home,
    End,
    Other,
}

/// A key event: the key, whether Control was held, and whether it is a press
/// (releases and repeats are ignored).
#[derive(Clone, Copy, PartialEq, Eq, Structural)]
pub struct KeyInput {
    pub code: KeyCode,
    pub ctrl: bool,
    pub press: bool,
}

/// Outside work that a key asks the caller to perform.
pub enum KeyAction {
    /// Nothing to do.
    Nothing,
    /// Leave the application.
    Quit,
    /// Create the parameter in the store, then report through `App::finish_create`.
    Create(CreateRequest),
    /// Start a full refresh in the background and store its receiver.
    StartRefresh,
    /// Copy `value` (of parameter `name`) to the clipboard, then report through `App::finish_copy`.
    Copy { name: String, value: String },
    /// Fetch, edit and store the value of `name`, then report through `App::finish_edit`.
    Edit { name: String, meta: ParameterMeta },
}

/// The mathematical picture of a `KeyAction`.
pub enum ActionView {
    Nothing,
    Quit,
    Create(Seq<char>, Seq<char>),
    StartRefresh,
    Copy(Seq<char>, Seq<char>),
    Edit(Seq<char>, MetaView),
}

pub open spec fn action_view(a: KeyAction) -> ActionView {
    match a {
        KeyAction::Nothing => ActionView::Nothing,
        KeyAction::Quit => ActionView::Quit,
        KeyAction::Create(r) => ActionView::Create(r.name@, r.value@),
        KeyAction::StartRefresh => ActionView::StartRefresh,
        KeyAction::Copy { name, value } => ActionView::Copy(name@, value@),
        KeyAction::Edit { name, meta } => ActionView::Edit(name@, meta@),
    }
}

/// The name field with a new text and cursor.
pub open spec fn with_name(v: AppView, t: (Seq<char>, int)) -> AppView {
    AppView { create_name: t.0, name_cursor: t.1 as usize, ..v }
}

/// The name cursor moved to `c`.
pub open spec fn with_name_cursor(v: AppView, c: int) -> AppView {
    AppView { name_cursor: c as usize, ..v }
}

/// The value field with a new text and cursor.
pub open spec fn with_value(v: AppView, t: (Seq<char>, int)) -> AppView {
    AppView { create_value: t.0, value_cursor: t.1 as usize, ..v }
}

/// The value cursor moved to `c`.
pub open spec fn with_value_cursor(v: AppView, c: int) -> AppView {
    AppView { value_cursor: c as usize, ..v }
}

/// Submitting the create popup from a key.
pub open spec fn submit_key_view(v: AppView) -> (AppView, ActionView) {
    let (w, r) = app::submit_create_view(v);
    match r {
        Some((n, val)) => (w, ActionView::Create(n, val)),
        None => (w, ActionView::Nothing),
    }
}

/// Keys while the name field of the popup has the focus.
pub open spec fn name_key_view(v: AppView, key: KeyInput) -> AppView {
    let s = v.create_name;
    let c = v.name_cursor as int;
    match key.code {
        KeyCode::Esc => app::cancel_create_view(v),
        KeyCode::Tab | KeyCode::Down | KeyCode::Up => app::switch_create_field_view(v),
        KeyCode::Enter => AppView {
            create_field: CreateField::Value,
            value_mode: ValueEditorMode::Insert,
            ..v
        },
        KeyCode::Left => with_name_cursor(v, text_edit::left_of(s, c)),
        KeyCode::Right => with_name_cursor(v, text_edit::right_of(s, c)),
        KeyCode::Home => with_name_cursor(v, text_edit::line_start_of(s, c)),
        KeyCode::End => with_name_cursor(v, text_edit::line_end_of(s, c)),
        KeyCode::Backspace => with_name(v, text_edit::backspaced(s, c)),
        KeyCode::Delete => with_name(v, text_edit::deleted(s, c)),
        KeyCode::Char(ch) => if key.ctrl {
            v
        } else {
            with_name(v, text_edit::inserted(s, c, ch))
        },
        _ => v,
    }
}

/// Keys while the value field is in insert mode.
pub open spec fn value_insert_key_view(v: AppView, key: KeyInput) -> AppView {
    let s = v.create_value;
    let c = v.value_cursor as int;
    match key.code {
        KeyCode::Esc => AppView { value_mode: ValueEditorMode::Normal, ..v },
        KeyCode::Tab => app::switch_create_field_view(v),
        KeyCode::Left => with_value_cursor(v, text_edit::left_of(s, c)),
        KeyCode::Right => with_value_cursor(v, text_edit::right_of(s, c)),
        KeyCode::Up => with_value_cursor(v, text_edit::up_of(s, c)),
        KeyCode::Down => with_value_cursor(v, text_edit::down_of(s, c)),
        KeyCode::Home => with_value_cursor(v, text_edit::line_start_of(s, c)),
        KeyCode::End => with_value_cursor(v, text_edit::line_end_of(s, c)),
        KeyCode::Enter => with_value(v, text_edit::inserted(s, c, '\n')),
        KeyCode::Backspace => with_value(v, text_edit::backspaced(s, c)),
        KeyCode::Delete => with_value(v, text_edit::deleted(s, c)),
        KeyCode::Char(ch) => if key.ctrl {
            v
        } else {
            with_value(v, text_edit::inserted(s, c, ch))
        },
        _ => v,
    }
}

/// Keys while the value field is in normal mode (vim-like).
pub open spec fn value_normal_key_view(v: AppView, key: KeyInput) -> (AppView, ActionView) {
    let s = v.create_value;
    let c = v.value_cursor as int;
    match key.code {
        KeyCode::Esc => (app::cancel_create_view(v), ActionView::Nothing),
        KeyCode::Tab => (app::switch_create_field_view(v), ActionView::Nothing),
        KeyCode::Char('i') => (AppView { value_mode: ValueEditorMode::Insert, ..v }, ActionView::Nothing),
        KeyCode::Char('a') => (
            AppView {
                value_mode: ValueEditorMode::Insert,
                ..with_value_cursor(v, text_edit::right_of(s, c))
            },
            ActionView::Nothing,
        ),
        KeyCode::Char('h') | KeyCode::Left => (
            with_value_cursor(v, text_edit::left_of(s, c)),
            ActionView::Nothing,
        ),
        KeyCode::Char('l') | KeyCode::Right => (
            with_value_cursor(v, text_edit::right_of(s, c)),
            ActionView::Nothing,
        ),
        KeyCode::Char('k') | KeyCode::Up => (
            with_value_cursor(v, text_edit::up_of(s, c)),
            ActionView::Nothing,
        ),
        KeyCode::Char('j') | KeyCode::Down => (
            with_value_cursor(v, text_edit::down_of(s, c)),
            ActionView::Nothing,
        ),
        KeyCode::Char('0') | KeyCode::Home => (
            with_value_cursor(v, text_edit::line_start_of(s, c)),
            ActionView::Nothing,
        ),
        KeyCode::Char('$') | KeyCode::End => (
            with_value_cursor(v, text_edit::line_end_of(s, c)),
            ActionView::Nothing,
        ),
        KeyCode::Char('x') | KeyCode::Delete => (
            with_value(v, text_edit::deleted(s, c)),
            ActionView::Nothing,
        ),
        KeyCode::Enter => submit_key_view(v),
        _ => (v, ActionView::Nothing),
    }
}

/// Keys while the create popup is open.
pub open spec fn create_key_view(v: AppView, key: KeyInput) -> (AppView, ActionView) {
    if key.ctrl && (key.code == KeyCode::Char('s') || key.code == KeyCode::Char('S')) {
        submit_key_view(v)
    } else {
        match v.create_field {
            CreateField::Name => (name_key_view(v, key), ActionView::Nothing),
            CreateField::Value => match v.value_mode {
                ValueEditorMode::Insert => (value_insert_key_view(v, key), ActionView::Nothing),
                ValueEditorMode::Normal => value_normal_key_view(v, key),
            },
        }
    }
}

/// Keys while searching: they edit the query (refiltering each time), move the
/// selection, or end the search.
pub open spec fn search_key_view(v: AppView, key: KeyInput) -> AppView {
    match key.code {
        KeyCode::Esc | KeyCode::Enter => app::end_search_view(v),
        KeyCode::Down | KeyCode::Char('j') => app::next_view(v),
        KeyCode::Up | KeyCode::Char('k') => app::previous_view(v),
        KeyCode::Backspace => app::apply_filter_view(
            AppView {
                query: if v.query.len() == 0 {
                    v.query
                } else {
                    v.query.drop_last()
                },
                ..v
            },
        ),
        KeyCode::Char(ch) => app::apply_filter_view(AppView { query: v.query.push(ch), ..v }),
        _ => v,
    }
}

/// The yank key: copy a loaded value, or request it and say it is loading.
pub open spec fn yank_view(v: AppView, sent: bool) -> (AppView, ActionView) {
    match app::selected_index(v) {
        Some(i) => {
            let p = v.params[i];
            match p.value {
                Some(val) => (v, ActionView::Copy(p.name, val)),
                None => (
                    AppView {
                        status: "Value for "@ + p.name + " not loaded yet. Loading in background"@,
                        ..app::request_value_view(v, p.name, sent)
                    },
                    ActionView::Nothing,
                ),
            }
        },
        None => (AppView { status: "No selection to copy"@, ..v }, ActionView::Nothing),
    }
}

/// The edit key: edit the selected parameter.
pub open spec fn edit_view(v: AppView) -> (AppView, ActionView) {
    match app::selected_index(v) {
        Some(i) => (v, ActionView::Edit(v.params[i].name, v.params[i].meta)),
        None => (AppView { status: "No selection to edit"@, ..v }, ActionView::Nothing),
    }
}

/// Keys on the main screen: Control+C, and `q` or `Esc` without Control, quit.
pub open spec fn main_key_view(v: AppView, key: KeyInput, sent: bool) -> (AppView, ActionView) {
    match key.code {
        KeyCode::Char('c') if key.ctrl => (v, ActionView::Quit),
        KeyCode::Char('q') if !key.ctrl => (v, ActionView::Quit),
        KeyCode::Esc if !key.ctrl => (v, ActionView::Quit),
        KeyCode::Char('/') => (app::start_search_view(v), ActionView::Nothing),
        KeyCode::Char('a') => (app::start_create_view(v), ActionView::Nothing),
        KeyCode::Char('R') => {
            let (w, start) = app::start_full_refresh_view(v);
            (
                w,
                if start {
                    ActionView::StartRefresh
                } else {
                    ActionView::Nothing
                },
            )
        },
        KeyCode::Char('y') => yank_view(v, sent),
        KeyCode::Char('e') => edit_view(v),
        KeyCode::Down | KeyCode::Char('j') => (app::next_view(v), ActionView::Nothing),
        KeyCode::Up | KeyCode::Char('k') => (app::previous_view(v), ActionView::Nothing),
        _ => (v, ActionView::Nothing),
    }
}

/// A key event: ignored unless pressed; then the popup, the search, or the
/// main screen handles it. `sent` is whether a value request reached the workers.
pub open spec fn key_view(v: AppView, key: KeyInput, sent: bool) -> (AppView, ActionView) {
    if !key.press {
        (v, ActionView::Nothing)
    } else if v.create_mode {
        create_key_view(v, key)
    } else if v.search_mode {
        (search_key_view(v, key), ActionView::Nothing)
    } else {
        main_key_view(v, key, sent)
    }
}

/// The key moves the selection down (on the main screen or while searching).
pub open spec fn moves_down(v: AppView, key: KeyInput) -> bool {
    key.press && !v.create_mode && (key.code == KeyCode::Down || key.code == KeyCode::Char('j'))
}

/// The editing cursors of the popup are valid cursors of their texts.
pub open spec fn cursors_ok(v: AppView) -> bool {
    &&& text_edit::cursor_ok(v.create_name, v.name_cursor as int)
    &&& text_edit::cursor_ok(v.create_value, v.value_cursor as int)
}

/// What an edit of a parameter's value came to.
pub enum EditOutcome {
    /// Fetching the current value failed.
    FetchFailed(String),
    /// The editor failed.
    EditorFailed(String),
    /// The editor left the value as it was.
    Unchanged,
    /// Storing the edited value failed.
    StoreFailed(String),
    /// The edited value was stored.
    Stored(String),
}

/// The state after an edit of parameter `name`.
pub open spec fn finish_edit_view(v: AppView, name: Seq<char>, outcome: EditOutcome) -> AppView {
    match outcome {
        EditOutcome::FetchFailed(e) => AppView { status: "Fetch before edit failed: "@ + e@, ..v },
        EditOutcome::EditorFailed(e) => AppView { status: "Editor error: "@ + e@, ..v },
        EditOutcome::Unchanged => AppView { status: "No changes for "@ + name, ..v },
        EditOutcome::StoreFailed(e) => AppView { status: "SSM update error: "@ + e@, ..v },
        EditOutcome::Stored(val) => AppView {
            status: "Updated "@ + name + " in SSM and local state"@,
            ..app::set_value_view(v, name, val@)
        },
    }
}

/// The state once the current value of `name` was fetched for editing: the
/// fetched value is stored locally; a failed fetch ends the edit with its error.
pub open spec fn fetched_for_edit_view(v: AppView, name: Seq<char>, fetched: Result<String, String>) -> AppView {
    match fetched {
        Ok(val) => app::set_value_view(v, name, val@),
        Err(e) => AppView { status: "Fetch before edit failed: "@ + e@, ..v },
    }
}

/// What follows the editor: write the changed value to the store, or end the
/// edit with this outcome.
pub enum EditStep {
    Store(String),
    Finish(EditOutcome),
}

/// The next step of an edit from what the editor returned: a changed text is
/// to be stored; no change, or an editor error, ends the edit.
pub fn after_editor(editor: Result<Option<String>, String>) -> (r: EditStep)
    ensures
        match editor {
            Ok(Some(e)) => r matches EditStep::Store(s) && s@ == e@,
            Ok(None) => r matches EditStep::Finish(EditOutcome::Unchanged),
            Err(e) => r matches EditStep::Finish(EditOutcome::EditorFailed(m)) && m@ == e@,
        },
{
    match editor {
        Ok(Some(e)) => EditStep::Store(e),
        Ok(None) => EditStep::Finish(EditOutcome::Unchanged),
        Err(e) => EditStep::Finish(EditOutcome::EditorFailed(e)),
    }
}

/// How an edit ends once the store answered the write of `edited`.
pub fn after_store(edited: String, stored: Result<(), String>) -> (r: EditOutcome)
    ensures
        match stored {
            Ok(()) => r matches EditOutcome::Stored(s) && s@ == edited@,
            Err(e) => r matches EditOutcome::StoreFailed(m) && m@ == e@,
        },
{
    match stored {
        Ok(()) => EditOutcome::Stored(edited),
        Err(e) => EditOutcome::StoreFailed(e),
    }
}

/// The state after copying the value of `name` to the clipboard.
pub open spec fn finish_copy_view(v: AppView, name: Seq<char>, outcome: Result<(), String>) -> AppView {
    match outcome {
        Ok(()) => AppView { status: "Copied value of "@ + name + " to clipboard"@, ..v },
        Err(e) => AppView { status: "Clipboard error: "@ + e@, ..v },
    }
}

impl App {
    fn handle_name_key(&mut self, key: KeyInput)
        requires
            text_edit::cursor_ok(old(self)@.create_name, old(self)@.name_cursor as int),
        ensures
            final(self)@ == name_key_view(old(self)@, key),
    {
        match key.code {
            KeyCode::Esc => self.cancel_create(),
            KeyCode::Tab | KeyCode::Down | KeyCode::Up => self.switch_create_field(),
            KeyCode::Enter => {
                self.create_field = CreateField::Value;
                self.create_value_mode = ValueEditorMode::Insert;
            },
            KeyCode::Left => move_cursor_left(self.create_name.as_str(), &mut self.create_name_cursor),
            KeyCode::Right => move_cursor_right(
                self.create_name.as_str(),
                &mut self.create_name_cursor,
            ),
            KeyCode::Home => move_cursor_line_start(
                self.create_name.as_str(),
                &mut self.create_name_cursor,
            ),
            KeyCode::End => move_cursor_line_end(
                self.create_name.as_str(),
                &mut self.create_name_cursor,
            ),
            KeyCode::Backspace => backspace_at_cursor(
                &mut self.create_name,
                &mut self.create_name_cursor,
            ),
            KeyCode::Delete => delete_at_cursor(&mut self.create_name, &mut self.create_name_cursor),
            KeyCode::Char(c) => {
                if !key.ctrl {
                    insert_char_at_cursor(&mut self.create_name, &mut self.create_name_cursor, c);
                }
            },
            _ => {},
        }
    }

    fn handle_value_insert_key(&mut self, key: KeyInput)
        requires
            text_edit::cursor_ok(old(self)@.create_value, old(self)@.value_cursor as int),
        ensures
            final(self)@ == value_insert_key_view(old(self)@, key),
    {
        match key.code {
            KeyCode::Esc => self.create_value_mode = ValueEditorMode::Normal,
            KeyCode::Tab => self.switch_create_field(),
            KeyCode::Left => move_cursor_left(
                self.create_value.as_str(),
                &mut self.create_value_cursor,
            ),
            KeyCode::Right => move_cursor_right(
                self.create_value.as_str(),
                &mut self.create_value_cursor,
            ),
            KeyCode::Up => move_cursor_up(self.create_value.as_str(), &mut self.create_value_cursor),
            KeyCode::Down => move_cursor_down(
                self.create_value.as_str(),
                &mut self.create_value_cursor,
            ),
            KeyCode::Home => move_cursor_line_start(
                self.create_value.as_str(),
                &mut self.create_value_cursor,
            ),
            KeyCode::End => move_cursor_line_end(
                self.create_value.as_str(),
                &mut self.create_value_cursor,
            ),
            KeyCode::Enter => insert_char_at_cursor(
                &mut self.create_value,
                &mut self.create_value_cursor,
                '\n',
            ),
            KeyCode::Backspace => backspace_at_cursor(
                &mut self.create_value,
                &mut self.create_value_cursor,
            ),
            KeyCode::Delete => delete_at_cursor(
                &mut self.create_value,
                &mut self.create_value_cursor,
            ),
            KeyCode::Char(c) => {
                if !key.ctrl {
                    insert_char_at_cursor(&mut self.create_value, &mut self.create_value_cursor, c);
                }
            },
            _ => {},
        }
    }

    fn submit_from_key(&mut self) -> (r: KeyAction)
        ensures
            (final(self)@, action_view(r)) == submit_key_view(old(self)@),
    {
        match self.submit_create() {
            Some(req) => KeyAction::Create(req),
            None => KeyAction::Nothing,
        }
    }

    fn handle_value_normal_key(&mut self, key: KeyInput) -> (r: KeyAction)
        requires
            text_edit::cursor_ok(old(self)@.create_value, old(self)@.value_cursor as int),
        ensures
            (final(self)@, action_view(r)) == value_normal_key_view(old(self)@, key),
    {
        match key.code {
            KeyCode::Esc => self.cancel_create(),
            KeyCode::Tab => self.switch_create_field(),
            KeyCode::Char('i') => self.create_value_mode = ValueEditorMode::Insert,
            KeyCode::Char('a') => {
                move_cursor_right(self.create_value.as_str(), &mut self.create_value_cursor);
                self.create_value_mode = ValueEditorMode::Insert;
            },
            KeyCode::Char('h') | KeyCode::Left => move_cursor_left(
                self.create_value.as_str(),
                &mut self.create_value_cursor,
            ),
            KeyCode::Char('l') | KeyCode::Right => move_cursor_right(
                self.create_value.as_str(),
                &mut self.create_value_cursor,
            ),
            KeyCode::Char('k') | KeyCode::Up => move_cursor_up(
                self.create_value.as_str(),
                &mut self.create_value_cursor,
            ),
            KeyCode::Char('j') | KeyCode::Down => move_cursor_down(
                self.create_value.as_str(),
                &mut self.create_value_cursor,
            ),
            KeyCode::Char('0') | KeyCode::Home => move_cursor_line_start(
                self.create_value.as_str(),
                &mut self.create_value_cursor,
            ),
            KeyCode::Char('$') | KeyCode::End => move_cursor_line_end(
                self.create_value.as_str(),
                &mut self.create_value_cursor,
            ),
            KeyCode::Char('x') | KeyCode::Delete => delete_at_cursor(
                &mut self.create_value,
                &mut self.create_value_cursor,
            ),
            KeyCode::Enter => {
                return self.submit_from_key();
            },
            _ => {},
        }
        KeyAction::Nothing
    }

    fn handle_create_key(&mut self, key: KeyInput) -> (r: KeyAction)
        requires
            cursors_ok(old(self)@),
        ensures
            (final(self)@, action_view(r)) == create_key_view(old(self)@, key),
    {
        let is_save = match key.code {
            KeyCode::Char('s') | KeyCode::Char('S') => true,
            _ => false,
        };
        if key.ctrl && is_save {
            return self.submit_from_key();
        }
        match self.create_field {
            CreateField::Name => {
                self.handle_name_key(key);
                KeyAction::Nothing
            },
            CreateField::Value => match self.create_value_mode {
                ValueEditorMode::Insert => {
                    self.handle_value_insert_key(key);
                    KeyAction::Nothing
                },
                ValueEditorMode::Normal => self.handle_value_normal_key(key),
            },
        }
    }

    fn handle_search_key(&mut self, key: KeyInput)
        requires
            old(self)@.filtered.len() > 0 && (key.code == KeyCode::Down || key.code == KeyCode::Char('j'))
                ==> old(self).selected < usize::MAX,
        ensures
            final(self)@ == search_key_view(old(self)@, key),
    {
        match key.code {
            KeyCode::Esc | KeyCode::Enter => self.end_search(),
            KeyCode::Down | KeyCode::Char('j') => self.next(),
            KeyCode::Up | KeyCode::Char('k') => self.previous(),
            KeyCode::Backspace => {
                self.query = drop_last_char(self.query.as_str());
                self.apply_filter();
            },
            KeyCode::Char(c) => {
                self.query.push(c);
                self.apply_filter();
            },
            _ => {},
        }
    }

    fn handle_yank(&mut self) -> (r: KeyAction)
        ensures
            exists|sent: bool| (final(self)@, action_view(r)) == yank_view(old(self)@, sent),
    {
        let (name, value) = match self.selected_parameter() {
            Some(p) => (p.name.clone(), models::clone_opt(&p.value)),
            None => {
                self.status = String::from_str("No selection to copy");
                assert((self@, action_view(KeyAction::Nothing)) == yank_view(old(self)@, true));
                return KeyAction::Nothing;
            },
        };
        match value {
            Some(value) => {
                assert((self@, action_view(KeyAction::Copy { name, value })) == yank_view(
                    old(self)@,
                    true,
                ));
                KeyAction::Copy { name, value }
            },
            None => {
                self.request_value_for_name(name.as_str());
                let ghost mid = self@;
                self.status = concat3(
                    "Value for ",
                    name.as_str(),
                    " not loaded yet. Loading in background",
                );
                proof {
                    let b = choose|b: bool|
                        mid == app::request_value_view(old(self)@, name@, b);
                    assert((self@, action_view(KeyAction::Nothing)) == yank_view(old(self)@, b));
                }
                KeyAction::Nothing
            },
        }
    }

    fn handle_edit(&mut self) -> (r: KeyAction)
        ensures
            (final(self)@, action_view(r)) == edit_view(old(self)@),
    {
        match self.selected_parameter() {
            Some(p) => KeyAction::Edit { name: p.name.clone(), meta: p.meta.clone() },
            None => {
                self.status = String::from_str("No selection to edit");
                KeyAction::Nothing
            },
        }
    }

    fn handle_main_key(&mut self, key: KeyInput) -> (r: KeyAction)
        requires
            old(self)@.filtered.len() > 0 && (key.code == KeyCode::Down || key.code == KeyCode::Char('j'))
                ==> old(self).selected < usize::MAX,
        ensures
            exists|sent: bool| (final(self)@, action_view(r)) == main_key_view(old(self)@, key, sent),
    {
        let r = match key.code {
            KeyCode::Char('c') if key.ctrl => KeyAction::Quit,
            KeyCode::Char('q') if !key.ctrl => KeyAction::Quit,
            KeyCode::Esc if !key.ctrl => KeyAction::Quit,
            KeyCode::Char('/') => {
                self.start_search();
                KeyAction::Nothing
            },
            KeyCode::Char('a') => {
                self.start_create();
                KeyAction::Nothing
            },
            KeyCode::Char('R') => {
                if self.start_full_refresh() {
                    KeyAction::StartRefresh
                } else {
                    KeyAction::Nothing
                }
            },
            KeyCode::Char('y') => {
                let r = self.handle_yank();
                proof {
                    let b = choose|b: bool| (self@, action_view(r)) == yank_view(old(self)@, b);
                    assert((self@, action_view(r)) == main_key_view(old(self)@, key, b));
                }
                return r;
            },
            KeyCode::Char('e') => self.handle_edit(),
            KeyCode::Down | KeyCode::Char('j') => {
                self.next();
                KeyAction::Nothing
            },
            KeyCode::Up | KeyCode::Char('k') => {
                self.previous();
                KeyAction::Nothing
            },
            _ => KeyAction::Nothing,
        };
        assert((self@, action_view(r)) == main_key_view(old(self)@, key, true));
        r
    }

    /// Handles one key event and returns the outside work it calls for.
    pub fn handle_key(&mut self, key: KeyInput) -> (r: KeyAction)
        requires
            old(self)@.filtered.len() > 0 && moves_down(old(self)@, key) ==> old(self).selected < usize::MAX,
            old(self).create_mode ==> cursors_ok(old(self)@),
        ensures
            exists|sent: bool| (final(self)@, action_view(r)) == key_view(old(self)@, key, sent),
    {
        if !key.press {
            assert((self@, action_view(KeyAction::Nothing)) == key_view(old(self)@, key, true));
            return KeyAction::Nothing;
        }
        if self.create_mode {
            let r = self.handle_create_key(key);
            assert((self@, action_view(r)) == key_view(old(self)@, key, true));
            return r;
        }
        if self.search_mode {
            self.handle_search_key(key);
            assert((self@, action_view(KeyAction::Nothing)) == key_view(old(self)@, key, true));
            return KeyAction::Nothing;
        }
        let r = self.handle_main_key(key);
        proof {
            let b = choose|b: bool| (self@, action_view(r)) == main_key_view(old(self)@, key, b);
            assert((self@, action_view(r)) == key_view(old(self)@, key, b));
        }
        r
    }

    /// Starts editing `name` with what fetching its current value gave: the
    /// value is stored and returned for the editor; a failed fetch ends the
    /// edit (status set) and returns nothing.
    pub fn begin_edit(&mut self, name: &str, fetched: Result<String, String>) -> (r: Option<String>)
        ensures
            final(self)@ == fetched_for_edit_view(old(self)@, name@, fetched),
            match fetched {
                Ok(val) => r matches Some(t) && t@ == val@,
                Err(_) => r is None,
            },
    {
        match fetched {
            Ok(value) => {
                self.set_value_for_name(name, value.clone());
                Some(value)
            },
            Err(e) => {
                self.status = crate::strings::concat("Fetch before edit failed: ", e.as_str());
                None
            },
        }
    }

    /// Records the result of copying the value of `name` to the clipboard.
    pub fn finish_copy(&mut self, name: &str, outcome: Result<(), String>)
        ensures
            final(self)@ == finish_copy_view(old(self)@, name@, outcome),
    {
        match outcome {
            Ok(()) => {
                self.status = concat3("Copied value of ", name, " to clipboard");
            },
            Err(e) => {
                self.status = crate::strings::concat("Clipboard error: ", e.as_str());
            },
        }
    }

    /// Records how an edit of the value of `name` ended.
    pub fn finish_edit(&mut self, name: &str, outcome: EditOutcome)
        ensures
            final(self)@ == finish_edit_view(old(self)@, name@, outcome),
    {
        match outcome {
            EditOutcome::FetchFailed(e) => {
                self.status = crate::strings::concat("Fetch before edit failed: ", e.as_str());
            },
            EditOutcome::EditorFailed(e) => {
                self.status = crate::strings::concat("Editor error: ", e.as_str());
            },
            EditOutcome::Unchanged => {
                self.status = crate::strings::concat("No changes for ", name);
            },
            EditOutcome::StoreFailed(e) => {
                self.status = crate::strings::concat("SSM update error: ", e.as_str());
            },
            EditOutcome::Stored(value) => {
                self.set_value_for_name(name, value);
                self.status = concat3("Updated ", name, " in SSM and local state");
            },
        }
    }
}

/// While the parameter names are loading, only Control+C does something: it quits.
pub fn loading_key_quits(key: KeyInput) -> (r: bool)
    ensures
        r == (key.press && key.ctrl && key.code == KeyCode::Char('c')),
{
    key.press && key.ctrl && key.code == KeyCode::Char('c')
}

/// `String::pop` on a copy: the text without its last character (unchanged when empty).
pub fn drop_last_char(text: &str) -> (r: String)
    ensures
        r@ == if text@.len() == 0 {
            text@
        } else {
            text@.drop_last()
        },
{
    let cs = crate::strings::chars_of(text);
    let mut out = String::new();
    let n = cs.len();
    let end = if n == 0 { 0 } else { n - 1 };
    crate::strings::push_chars(&mut out, &cs, 0, end);
    assert(cs@.subrange(0, end as int) =~= if cs@.len() == 0 {
        cs@
    } else {
        cs@.drop_last()
    });
    out
}

} // verus!
