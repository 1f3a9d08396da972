//! How the program answers keys and pasted text.
use crate::app::{
    completed_state, credentials_found, source_step, Action, ActionView, AfterSave, App, AppView,
    Mode, ModeView, PendingSave, PendingSaveView,
};
use crate::completion::{
    completion_step, completion_view, cycle_path_completion, file_name, is_uncuttable,
    listing_needed, names_at_the_cursor_can_be_completed, needs_listing, uncuttable,
    CompletionStep, CompletionStepView,
};
use crate::config::{views, CredentialView};
use crate::keys::{Event, Key, KeyCode, KeyKind};
use crate::paths::{is_last_component, last_component, last_component_is_known};
use crate::prompt::{edited, fresh_line, insert_text, line, new_input, pasted, press, value, Line};
use crate::sources::{credentials_from_source, named_source, Source, SourceView};
use crate::text::{trim, trimmed};
use tui_input::Input;
use vstd::prelude::*;
use vstd::string::StringExecFns;
use vstd::utf8::{encode_utf8, is_char_boundary};

verus! {

/// The step of a key when no prompt is open.
pub open spec fn normal_step(app: AppView, code: KeyCode) -> (AppView, ActionView) {
    match code {
        KeyCode::Char('q') => (app, ActionView::Quit),
        KeyCode::Char('n') => (
            AppView {
                mode: ModeView::Add(fresh_line(Seq::empty(), 0)),
                message: None,
                path_completion: None,
                ..app
            },
            ActionView::Continue,
        ),
        KeyCode::Char('s') => (app, ActionView::ScanScreen),
        KeyCode::Enter if app.selection() is Some => (app, ActionView::CopyCode),
        KeyCode::Down | KeyCode::Char('j') => (
            AppView {
                selected: if app.selected + 1 < app.config.credentials.len() {
                    app.selected + 1
                } else {
                    app.selected
                },
                ..app
            },
            ActionView::Continue,
        ),
        KeyCode::Up | KeyCode::Char('k') => (
            AppView {
                selected: if app.selected > 0 {
                    app.selected - 1
                } else {
                    app.selected
                },
                ..app
            },
            ActionView::Continue,
        ),
        KeyCode::Char('d') if app.selection() is Some => (
            AppView { mode: ModeView::ConfirmDelete, message: None, ..app },
            ActionView::Continue,
        ),
        KeyCode::Char('r') if app.selection() is Some => {
            let name = app.selection().unwrap().name;
            (
                AppView { mode: ModeView::Rename(fresh_line(name, name.len())), message: None, ..app
                },
                ActionView::Continue,
            )
        },
        _ => (app, ActionView::Continue),
    }
}

/// The step of a key when the user is asked whether to delete the selected credential.
pub open spec fn confirm_step(app: AppView, code: KeyCode) -> (AppView, ActionView) {
    match code {
        KeyCode::Char('y') | KeyCode::Char('Y') => match app.selection() {
            Some(removed) => (
                (AppView {
                    config: app.config.without(app.selected),
                    mode: ModeView::Normal,
                    ..app
                }).clamped(),
                ActionView::Save(
                    PendingSaveView {
                        previous: app.config,
                        success: "Deleted "@ + removed.label(),
                        after: AfterSave::Stay,
                    },
                ),
            ),
            None => (AppView { mode: ModeView::Normal, ..app }, ActionView::Continue),
        },
        KeyCode::Char('n') | KeyCode::Char('N') | KeyCode::Esc => (
            AppView { mode: ModeView::Normal, ..app },
            ActionView::Continue,
        ),
        _ => (app, ActionView::Continue),
    }
}

/// The step of a key, with the bit set of its modifiers, in the prompt for a new name.
pub open spec fn rename_step(app: AppView, line: Line, code: KeyCode, modifiers: u8) -> (
    AppView,
    ActionView,
) {
    match code {
        KeyCode::Esc => (
            AppView { mode: ModeView::Normal, message: None, ..app },
            ActionView::Continue,
        ),
        KeyCode::Enter => {
            let name = trimmed(line.text);
            if name.len() == 0 {
                (app.telling("Display name cannot be empty"@), ActionView::Continue)
            } else if app.selection() is Some {
                (
                    AppView { config: app.config.renamed(app.selected, name), ..app },
                    ActionView::Save(
                        PendingSaveView {
                            previous: app.config,
                            success: "Credential renamed"@,
                            after: AfterSave::CloseRename,
                        },
                    ),
                )
            } else {
                (app, ActionView::Continue)
            }
        },
        _ => (
            AppView { mode: ModeView::Rename(edited(line, code, modifiers)), ..app },
            ActionView::Continue,
        ),
    }
}

/// The step of a key, with the bit set of its modifiers, in the prompt for a source.
pub open spec fn add_step(app: AppView, line: Line, code: KeyCode, modifiers: u8) -> (
    AppView,
    ActionView,
) {
    match code {
        KeyCode::Esc => (
            AppView { mode: ModeView::Normal, message: None, path_completion: None, ..app },
            ActionView::Continue,
        ),
        KeyCode::Tab | KeyCode::BackTab => {
            let backwards = code == KeyCode::BackTab;
            match completion_step(line, app.path_completion, backwards) {
                CompletionStepView::List(query) => (
                    app,
                    ActionView::ListDirectory { query, backwards },
                ),
                CompletionStepView::Done { line, completion, message } => (
                    completed_state(app, line, completion, message),
                    ActionView::Continue,
                ),
            }
        },
        KeyCode::Enter => {
            let source = trimmed(line.text);
            if source.len() == 0 {
                (app.telling("Enter a URL or image path"@), ActionView::Continue)
            } else {
                match named_source(source) {
                    SourceView::Url(credentials) => source_step(app, credentials),
                    SourceView::Image(path) => (app, ActionView::ReadImage(path)),
                }
            }
        },
        _ => (
            AppView {
                mode: ModeView::Add(edited(line, code, modifiers)),
                message: None,
                path_completion: None,
                ..app
            },
            ActionView::Continue,
        ),
    }
}

/// The step of a key. A key that comes up does nothing, and control with `c` ends the program
/// whatever it is at.
pub open spec fn key_step(app: AppView, key: Key) -> (AppView, ActionView) {
    if key.kind is Release {
        (app, ActionView::Continue)
    } else if key.code == KeyCode::Char('c') && key.modifiers.control {
        (app, ActionView::Quit)
    } else {
        match app.mode {
            ModeView::Normal => normal_step(app, key.code),
            ModeView::ConfirmDelete => confirm_step(app, key.code),
            ModeView::Rename(line) => rename_step(app, line, key.code, key.modifiers.mask() as u8),
            ModeView::Add(line) => add_step(app, line, key.code, key.modifiers.mask() as u8),
        }
    }
}

/// Whether a key asks for a completion that is impossible, because the cut before the name would
/// split a character.
pub open spec fn is_impossible(app: AppView, key: Key) -> bool {
    &&& !(key.kind is Release)
    &&& key.code is Tab || key.code is BackTab
    &&& app.mode matches ModeView::Add(line) && needs_listing(line, app.path_completion)
        && is_uncuttable(line)
}

/// Whether a key asks for a completion that is impossible.
pub fn impossible(app: &App, key: Key) -> (found: bool)
    ensures
        found == is_impossible(app@, key),
{
    let asks = match (key.kind, key.code) {
        (KeyKind::Release, _) => false,
        (_, KeyCode::Tab) | (_, KeyCode::BackTab) => true,
        _ => false,
    };
    match &app.mode {
        Mode::Add(input) => {
            asks && listing_needed(input, &app.path_completion) && uncuttable(input)
        },
        _ => false,
    }
}

/// Handles a key when no prompt is open.
fn handle_normal_key(app: &mut App, code: KeyCode) -> (action: Action)
    requires
        old(app).mode is Normal,
    ensures
        (final(app)@, action@) == normal_step(old(app)@, code),
{
    match code {
        KeyCode::Char('q') => {
            return Action::Quit;
        },
        KeyCode::Char('n') => {
            app.mode = Mode::Add(new_input(String::new()));
            app.message = None;
            app.path_completion = None;
        },
        KeyCode::Char('s') => {
            return Action::ScanScreen;
        },
        KeyCode::Enter => {
            if app.selected().is_some() {
                return Action::CopyCode;
            }
        },
        KeyCode::Down | KeyCode::Char('j') => {
            let count: usize = app.config.credentials.len();
            if app.selected < count && app.selected + 1 < count {
                app.selected = app.selected + 1;
            }
        },
        KeyCode::Up | KeyCode::Char('k') => {
            if app.selected > 0 {
                app.selected = app.selected - 1;
            }
        },
        KeyCode::Char('d') => {
            if app.selected().is_some() {
                app.mode = Mode::ConfirmDelete;
                app.message = None;
            }
        },
        KeyCode::Char('r') => {
            let name = match app.selected() {
                Some(credential) => credential.name.clone(),
                None => {
                    return Action::Continue;
                },
            };
            app.mode = Mode::Rename(new_input(name));
            app.message = None;
        },
        _ => {},
    }
    Action::Continue
}

/// Handles a key when the user is asked whether to delete the selected credential.
fn handle_confirm_key(app: &mut App, code: KeyCode) -> (action: Action)
    requires
        old(app).mode is ConfirmDelete,
    ensures
        (final(app)@, action@) == confirm_step(old(app)@, code),
{
    match code {
        KeyCode::Char('y') | KeyCode::Char('Y') => {
            app.mode = Mode::Normal;
            if app.selected < app.config.credentials.len() {
                let previous = app.config.clone();
                let ghost held = app.config.credentials@;
                let removed = app.config.credentials.remove(app.selected);
                assert(views(app.config.credentials@) == views(held).remove(app.selected as int));
                assert(removed@ == views(held)[app.selected as int]);
                app.keep_selection_valid();
                let mut success = "Deleted ".to_owned();
                success.append(removed.label().as_str());
                return Action::Save(PendingSave { previous, success, after: AfterSave::Stay });
            }
        },
        KeyCode::Char('n') | KeyCode::Char('N') | KeyCode::Esc => {
            app.mode = Mode::Normal;
        },
        _ => {},
    }
    Action::Continue
}

/// Handles a key in the prompt for a new name, whose line is `input`.
fn handle_rename_key(app: &mut App, input: Input, key: Key) -> (action: Action)
    ensures
        (final(app)@, action@) == rename_step(
            AppView { mode: ModeView::Rename(line(input)), ..old(app)@ },
            line(input),
            key.code,
            key.modifiers.mask() as u8,
        ),
{
    match key.code {
        KeyCode::Esc => {
            app.mode = Mode::Normal;
            app.message = None;
        },
        KeyCode::Enter => {
            let name = trim(value(&input));
            app.mode = Mode::Rename(input);
            if name.as_str().is_empty() {
                app.message = Some("Display name cannot be empty".to_owned());
            } else if app.selected < app.config.credentials.len() {
                let previous = app.config.clone();
                let ghost held = app.config.credentials@;
                let mut credential = app.config.credentials[app.selected].clone();
                credential.name = name;
                app.config.credentials.set(app.selected, credential);
                assert(views(app.config.credentials@) == views(held).update(
                    app.selected as int,
                    CredentialView { name: name@, ..views(held)[app.selected as int] },
                ));
                return Action::Save(
                    PendingSave {
                        previous,
                        success: "Credential renamed".to_owned(),
                        after: AfterSave::CloseRename,
                    },
                );
            }
        },
        _ => {
            let mut input = input;
            press(&mut input, key.code, key.modifiers.bits());
            app.mode = Mode::Rename(input);
        },
    }
    Action::Continue
}

/// Handles a key in the prompt for a source, whose line is `input`.
fn handle_add_key(app: &mut App, input: Input, key: Key) -> (action: Action)
    requires
        old(app).path_completion matches Some(state) ==> state@.is_sound(),
        (key.code is Tab || key.code is BackTab) && needs_listing(
            line(input),
            completion_view(old(app).path_completion),
        ) ==> !is_uncuttable(line(input)),
    ensures
        (final(app)@, action@) == add_step(
            AppView { mode: ModeView::Add(line(input)), ..old(app)@ },
            line(input),
            key.code,
            key.modifiers.mask() as u8,
        ),
{
    match key.code {
        KeyCode::Esc => {
            app.mode = Mode::Normal;
            app.message = None;
            app.path_completion = None;
        },
        KeyCode::Tab | KeyCode::BackTab => {
            let backwards = key.code == KeyCode::BackTab;
            let mut input = input;
            let step = cycle_path_completion(&mut input, &mut app.path_completion, backwards);
            app.mode = Mode::Add(input);
            match step {
                CompletionStep::List(query) => {
                    return Action::ListDirectory { query, backwards };
                },
                CompletionStep::Done(Some(message)) => {
                    app.message = Some(message);
                },
                CompletionStep::Done(None) => {
                    app.message = Some("No path matches".to_owned());
                },
            }
        },
        KeyCode::Enter => {
            let source = trim(value(&input));
            app.mode = Mode::Add(input);
            if source.as_str().is_empty() {
                app.message = Some("Enter a URL or image path".to_owned());
            } else {
                return match credentials_from_source(source.as_str()) {
                    Source::Url(credentials) => credentials_found(app, credentials),
                    Source::Image(path) => Action::ReadImage(path),
                };
            }
        },
        _ => {
            let mut input = input;
            press(&mut input, key.code, key.modifiers.bits());
            app.mode = Mode::Add(input);
            app.message = None;
            app.path_completion = None;
        },
    }
    Action::Continue
}

/// Handles a key.
pub fn handle_key(app: &mut App, key: Key) -> (action: Action)
    requires
        old(app)@.is_sound(),
        !is_impossible(old(app)@, key),
    ensures
        (final(app)@, action@) == key_step(old(app)@, key),
        final(app)@.is_sound(),
{
    if key.kind == KeyKind::Release {
        return Action::Continue;
    }
    if key.code == KeyCode::Char('c') && key.modifiers.control {
        return Action::Quit;
    }
    let mut mode = Mode::Normal;
    core::mem::swap(&mut app.mode, &mut mode);
    match mode {
        Mode::Normal => handle_normal_key(app, key.code),
        Mode::ConfirmDelete => {
            app.mode = Mode::ConfirmDelete;
            handle_confirm_key(app, key.code)
        },
        Mode::Rename(input) => handle_rename_key(app, input, key),
        Mode::Add(input) => handle_add_key(app, input, key),
    }
}

/// The step of pasted text: the open prompt takes it without the white space at its ends.
pub open spec fn paste_step(app: AppView, text: Seq<char>) -> AppView {
    match app.mode {
        ModeView::Rename(line) => AppView {
            mode: ModeView::Rename(pasted(line, trimmed(text))),
            path_completion: None,
            ..app
        },
        ModeView::Add(line) => AppView {
            mode: ModeView::Add(pasted(line, trimmed(text))),
            path_completion: None,
            ..app
        },
        _ => app,
    }
}

/// Takes pasted text into the prompt that is open.
fn paste(app: &mut App, text: &str)
    ensures
        final(app)@ == paste_step(old(app)@, text@),
{
    let text = trim(text);
    let mut mode = Mode::Normal;
    core::mem::swap(&mut app.mode, &mut mode);
    match mode {
        Mode::Rename(input) => {
            let mut input = input;
            insert_text(&mut input, text.as_str());
            app.mode = Mode::Rename(input);
            app.path_completion = None;
        },
        Mode::Add(input) => {
            let mut input = input;
            insert_text(&mut input, text.as_str());
            app.mode = Mode::Add(input);
            app.path_completion = None;
        },
        other => {
            app.mode = other;
        },
    }
}

/// The step of an event.
pub open spec fn event_step(app: AppView, event: Event) -> (AppView, ActionView) {
    match event {
        Event::Key(key) => key_step(app, key),
        Event::Paste(text) => (paste_step(app, text@), ActionView::Continue),
        Event::Other => (app, ActionView::Continue),
    }
}

/// Handles an event of the terminal.
pub fn handle_event(app: &mut App, event: Event) -> (action: Action)
    requires
        old(app)@.is_sound(),
        event matches Event::Key(key) ==> !is_impossible(old(app)@, key),
    ensures
        (final(app)@, action@) == event_step(old(app)@, event),
        final(app)@.is_sound(),
{
    match event {
        Event::Key(key) => handle_key(app, key),
        Event::Paste(text) => {
            paste(app, text.as_str());
            Action::Continue
        },
        Event::Other => Action::Continue,
    }
}

/// A key can be handled unless it asks for a completion at a cursor before which the name to be
/// completed is followed by components `.`, and where as many bytes as the name has, taken off the
/// end of the path, would split a character.
pub proof fn few_keys_are_impossible(app: AppView, key: Key, line: Line, start: int, end: int)
    requires
        app.mode == ModeView::Add(line),
        is_last_component(line.text.take(line.cursor as int), start, end),
    ensures
        ({
            let before = line.text.take(line.cursor as int);
            let name = before.subrange(start, end);
            let is_url = "otpauth://"@.is_prefix_of(before)
                || "otpauth-migration://"@.is_prefix_of(before);
            let cut = encode_utf8(before).len() - encode_utf8(name).len();
            is_impossible(app, key) ==> {
                &&& key.code is Tab || key.code is BackTab
                &&& !(key.kind is Release)
                &&& !is_url
                &&& before.last() != '/'
                &&& name != seq!['.', '.']
                &&& end < before.len()
                &&& !is_char_boundary(encode_utf8(before), cut)
            }
        }),
        app.path_completion is None && !(key.kind is Release) && (key.code is Tab || key.code
            is BackTab) && !is_impossible(app, key) ==> ({
            let before = line.text.take(line.cursor as int);
            let name = before.subrange(start, end);
            let is_url = "otpauth://"@.is_prefix_of(before)
                || "otpauth-migration://"@.is_prefix_of(before);
            let cut = encode_utf8(before).len() - encode_utf8(name).len();
            is_url || before.last() == '/' || name == seq!['.', '.'] || is_char_boundary(
                encode_utf8(before),
                cut,
            )
        }),
{
    let before = line.text.take(line.cursor as int);
    last_component_is_known(before, start, end);
    if end == before.len() || file_name(before).len() == 0 {
        names_at_the_cursor_can_be_completed(line);
    }
}

/// No key is impossible where no path is being completed, or where the path has no component.
pub proof fn keys_without_a_name_are_possible(app: AppView, key: Key)
    requires
        app.mode matches ModeView::Add(line) ==> last_component(
            line.text.take(line.cursor as int),
        ) is None,
    ensures
        !is_impossible(app, key),
{
    if let ModeView::Add(line) = app.mode {
        names_at_the_cursor_can_be_completed(line);
    }
}

} // verus!
