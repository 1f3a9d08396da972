//! What every step of the program does and what it keeps, whatever happens.
use crate::app::{
    adding_step, initial, saved_state, Action, ActionView, AfterSave, App, AppView, Mode, ModeView,
    PendingSaveView,
};
use crate::candidates::DirectoryEntryView;
use crate::completion::{path_query, CompletionQueryView, PathCompletionView};
use crate::config::{views, ConfigView, NewCredential, NewCredentialView};
use crate::events::{event_step, handle_event, handle_key, key_step};
use crate::keys::{Event, Key, KeyCode};
use crate::otpauth::url_credentials;
use crate::outcomes::{image_read, image_step, listed_state, scan_step, screen_scanned};
use crate::prompt::{edited, holds_piece, line, pasting_keeps_the_rest, Line};
use crate::sources::{FileError, ScanError};
use crate::text::{decimal, trimmed};
use tui_input::Input;
use vstd::prelude::*;

verus! {

/// Something that happens to the program.
pub enum Happening {
    /// An event of the terminal.
    Event(Event),
    /// An image was read, or was not.
    ImageRead(Result<Seq<char>, Seq<char>>),
    /// The screen was scanned, or was not.
    ScreenScanned(Result<Seq<NewCredentialView>, Seq<char>>),
    /// A directory was listed, or was not.
    DirectoryListed(CompletionQueryView, bool, Result<Seq<DirectoryEntryView>, Seq<char>>),
    /// A code was copied, or was not, and the user is told so.
    CodeCopied(Seq<char>),
}

/// The step that the program makes.
pub open spec fn step(app: AppView, happening: Happening) -> (AppView, ActionView) {
    match happening {
        Happening::Event(event) => event_step(app, event),
        Happening::ImageRead(read) => image_step(app, read),
        Happening::ScreenScanned(scanned) => scan_step(app, scanned),
        Happening::DirectoryListed(query, backwards, listed) => (
            listed_state(app, query, backwards, listed),
            ActionView::Continue,
        ),
        Happening::CodeCopied(text) => (app.telling(text), ActionView::Continue),
    }
}

/// The state once a step is over: where it asks for the store to be written, after that was tried.
pub open spec fn settled(step: (AppView, ActionView), failure: Option<Seq<char>>) -> AppView {
    match step.1 {
        ActionView::Save(pending) => saved_state(step.0, pending, failure),
        _ => step.0,
    }
}

/// No change is kept that was not written: a step that changes what is stored asks for it to be
/// written and holds on to what was stored before, and where writing fails that is back.
pub proof fn changes_are_written_or_undone(app: AppView, happening: Happening, failure: Seq<char>)
    ensures
        step(app, happening).0.config != app.config ==> step(app, happening).1 is Save,
        step(app, happening).1 matches ActionView::Save(pending) ==> pending.previous == app.config,
        settled(step(app, happening), Some(failure)).config == app.config,
        settled(step(app, happening), None).config == step(app, happening).0.config,
{
}

/// A failed attempt to write the store leaves an open prompt open, so that nothing that was
/// entered is lost, and is told.
pub proof fn failed_saves_keep_prompts_open(app: AppView, happening: Happening, failure: Seq<char>)
    requires
        step(app, happening).1 is Save,
        app.mode is Rename || app.mode is Add,
    ensures
        settled(step(app, happening), Some(failure)).mode == app.mode,
        settled(step(app, happening), Some(failure)).message == Some("Save failed: "@ + failure),
{
}

/// Whatever happens, the selection exists unless there are no credentials, and so does the first
/// credential on the screen.
#[verifier::rlimit(50)]
pub proof fn steps_keep_the_state_sound(
    app: AppView,
    happening: Happening,
    failure: Option<Seq<char>>,
)
    requires
        app.is_sound(),
    ensures
        step(app, happening).0.is_sound(),
        settled(step(app, happening), failure).is_sound(),
{
}

/// Whatever happens, no two credentials share a number, and no number that was out of use comes
/// back into use.
#[verifier::rlimit(50)]
pub proof fn steps_keep_ids_sound(app: AppView, happening: Happening, failure: Option<Seq<char>>)
    requires
        app.config.ids_sound(),
    ensures
        settled(step(app, happening), failure).config.ids_sound(),
        settled(step(app, happening), failure).config.follows(app.config),
{
}

/// The program ends on `q` when no prompt is open and on control with `c` at any time, and on
/// nothing else; and then it leaves everything as it is.
pub proof fn the_program_ends_when_asked(app: AppView, happening: Happening)
    ensures
        step(app, happening).1 is Quit <==> (happening matches Happening::Event(Event::Key(key))
            && !(key.kind is Release) && (key.code == KeyCode::Char('c') && key.modifiers.control
            || key.code == KeyCode::Char('q') && app.mode is Normal)),
        step(app, happening).1 is Quit ==> step(app, happening).0 == app,
{
}

/// A credential is deleted only when the user has confirmed it, and then it is the selected one.
pub proof fn deletions_are_confirmed(app: AppView, happening: Happening)
    requires
        step(app, happening).0.config.credentials.len() < app.config.credentials.len(),
    ensures
        app.mode is ConfirmDelete,
        happening matches Happening::Event(Event::Key(key)) && (key.code == KeyCode::Char('y')
            || key.code == KeyCode::Char('Y')),
        step(app, happening).0.config == app.config.without(app.selected),
{
}

/// Escape leaves every prompt, and what is stored and what is selected stay.
pub proof fn escape_leaves_prompts(app: AppView, key: Key)
    requires
        key.code is Esc,
        !(key.kind is Release),
    ensures
        key_step(app, key).0.mode is Normal,
        key_step(app, key).0.config == app.config,
        key_step(app, key).0.selected == app.selected,
        key_step(app, key).1 is Continue,
{
}

/// Renaming changes one name and nothing else: the selected credential keeps its number, issuer
/// and URL and is called what the prompt holds, without the white space at its ends; all others
/// stay as they are, and so does the next free number. A name that is empty is refused.
pub proof fn renaming_changes_one_name(app: AppView, line: Line, key: Key, failure: Seq<char>)
    requires
        app.mode == ModeView::Rename(line),
        key.code is Enter,
        !(key.kind is Release),
        0 <= app.selected < app.config.credentials.len(),
    ensures
        trimmed(line.text).len() == 0 ==> key_step(app, key) == (
            AppView { message: Some("Display name cannot be empty"@), ..app },
            ActionView::Continue,
        ),
        trimmed(line.text).len() > 0 ==> ({
            let before = app.config.credentials;
            let (renamed, action) = key_step(app, key);
            let after = renamed.config.credentials;
            &&& renamed.config.next_id == app.config.next_id
            &&& after.len() == before.len()
            &&& forall|i: int|
                0 <= i < before.len() && i != app.selected ==> #[trigger] after[i] == before[i]
            &&& after[app.selected].id == before[app.selected].id
            &&& after[app.selected].issuer == before[app.selected].issuer
            &&& after[app.selected].url == before[app.selected].url
            &&& after[app.selected].name == trimmed(line.text)
            &&& renamed.selected == app.selected
            &&& renamed.scroll == app.scroll
            &&& renamed.mode == app.mode
            &&& renamed.path_completion == app.path_completion
            &&& action is Save
            &&& settled((renamed, action), None).config == renamed.config
            &&& settled((renamed, action), None).mode is Normal
            &&& settled((renamed, action), None).message == Some("Credential renamed"@)
            &&& settled((renamed, action), Some(failure)).config == app.config
            &&& settled((renamed, action), Some(failure)).mode == app.mode
        }),
{
}

/// A confirmed deletion takes away the selected credential and no other, and keeps the rest in
/// order. The one behind it is selected then, or the last one where there is none.
pub proof fn deleting_takes_one_away(app: AppView, key: Key, failure: Seq<char>)
    requires
        app.mode is ConfirmDelete,
        key.code == KeyCode::Char('y') || key.code == KeyCode::Char('Y'),
        !(key.kind is Release),
        0 <= app.selected < app.config.credentials.len(),
        0 <= app.scroll,
    ensures
        ({
            let before = app.config.credentials;
            let (left, action) = key_step(app, key);
            let after = left.config.credentials;
            &&& after.len() == before.len() - 1
            &&& forall|i: int| 0 <= i < app.selected ==> #[trigger] after[i] == before[i]
            &&& forall|i: int|
                app.selected <= i < before.len() - 1 ==> #[trigger] after[i] == before[i + 1]
            &&& left.config.next_id == app.config.next_id
            &&& app.selected < after.len() ==> left.selected == app.selected
            &&& app.selected == after.len() && after.len() > 0 ==> left.selected == app.selected - 1
            &&& after.len() == 0 ==> left.selected == 0
            &&& left.scroll <= app.scroll && left.scroll <= left.selected
            &&& left.scroll == app.scroll || left.scroll == left.selected
            &&& left.mode is Normal
            &&& left.path_completion == app.path_completion
            &&& action is Save
            &&& settled((left, action), None) == (AppView {
                message: Some(
                    "Deleted "@ + before[app.selected].issuer + ": "@ + before[app.selected].name,
                ),
                ..left
            })
            &&& settled((left, action), Some(failure)).config == app.config
            &&& settled((left, action), Some(failure)).mode is Normal
        }),
{
    let removed = app.config.credentials[app.selected];
    assert("Deleted "@ + (removed.issuer + ": "@ + removed.name) == "Deleted "@ + removed.issuer
        + ": "@ + removed.name);
}

/// While the user is asked whether to delete, no other key than `y` changes anything but the
/// question: `n` and escape take it back, and all others leave it open.
pub proof fn only_yes_deletes(app: AppView, key: Key)
    requires
        app.mode is ConfirmDelete,
        !(key.kind is Release),
        !(key.code == KeyCode::Char('c') && key.modifiers.control),
        app.config.credentials.len() > 0 ==> key.code != KeyCode::Char('y') && key.code
            != KeyCode::Char('Y'),
        app.is_sound(),
    ensures
        key_step(app, key).1 is Continue,
        key_step(app, key).0 == (AppView {
            mode: if key.code == KeyCode::Char('n') || key.code == KeyCode::Char('N')
                || key.code == KeyCode::Char('y') || key.code == KeyCode::Char('Y')
                || key.code is Esc {
                ModeView::Normal
            } else {
                ModeView::ConfirmDelete
            },
            ..app
        }),
{
}

/// When no prompt is open, `j` and the key down select the next credential, `k` and the key up
/// the previous one; at the ends the selection stays. Nothing else changes.
pub proof fn the_selection_moves_by_one(app: AppView, key: Key)
    requires
        app.mode is Normal,
        !(key.kind is Release),
        key.code is Down || key.code is Up || key.code == KeyCode::Char('j') || key.code
            == KeyCode::Char('k'),
        app.is_sound(),
    ensures
        ({
            let (moved, action) = key_step(app, key);
            let last = app.config.credentials.len() - 1;
            let down = key.code is Down || key.code == KeyCode::Char('j');
            &&& action is Continue
            &&& moved == AppView { selected: moved.selected, ..app }
            &&& down && app.selected < last ==> moved.selected == app.selected + 1
            &&& down && app.selected >= last ==> moved.selected == app.selected
            &&& !down && app.selected > 0 ==> moved.selected == app.selected - 1
            &&& !down && app.selected == 0 ==> moved.selected == 0
        }),
{
}

/// When no prompt is open, `n` opens the empty prompt for a source, `r` the prompt for a new name
/// with the name of the selected credential and the cursor behind it, and `d` asks whether to
/// delete the selected credential. What was told before is gone, and nothing else changes; where
/// there is no credential, `r` and `d` do nothing.
pub proof fn prompts_are_opened(app: AppView, key: Key)
    requires
        app.mode is Normal,
        !(key.kind is Release),
        key.code == KeyCode::Char('n') || key.code == KeyCode::Char('r') || key.code
            == KeyCode::Char('d'),
        app.is_sound(),
    ensures
        ({
            let (opened, action) = key_step(app, key);
            let name = app.config.credentials[app.selected].name;
            &&& action is Continue
            &&& key.code == KeyCode::Char('n') ==> {
                &&& opened.mode matches ModeView::Add(line)
                &&& line.text.len() == 0
                &&& line.cursor == 0
                &&& line.yank.len() == 0
                &&& !line.was_cut
                &&& opened == AppView {
                    mode: opened.mode,
                    message: None,
                    path_completion: None,
                    ..app
                }
            }
            &&& key.code == KeyCode::Char('r') && app.config.credentials.len() > 0 ==> {
                &&& opened.mode matches ModeView::Rename(line)
                &&& line.text == name
                &&& line.cursor == name.len()
                &&& line.yank.len() == 0
                &&& !line.was_cut
                &&& opened == AppView { mode: opened.mode, message: None, ..app }
            }
            &&& key.code == KeyCode::Char('d') && app.config.credentials.len() > 0 ==> opened
                == AppView { mode: ModeView::ConfirmDelete, message: None, ..app }
            &&& key.code != KeyCode::Char('n') && app.config.credentials.len() == 0 ==> opened
                == app
        }),
{
}

/// When no prompt is open, `s` asks for a scan of the screen, and enter for a copy of the selected
/// credential's code where there is one; no key but those that move the selection, open a prompt
/// or end the program does anything else.
pub proof fn other_keys_change_nothing(app: AppView, key: Key)
    requires
        app.mode is Normal,
        !(key.code is Down || key.code is Up || key.code == KeyCode::Char('j') || key.code
            == KeyCode::Char('k') || key.code == KeyCode::Char('n') || key.code == KeyCode::Char(
            'r',
        ) || key.code == KeyCode::Char('d')),
        app.is_sound(),
    ensures
        key_step(app, key).0 == app,
        key_step(app, key).1 is ScanScreen <==> !(key.kind is Release) && key.code
            == KeyCode::Char('s'),
        key_step(app, key).1 is CopyCode <==> !(key.kind is Release) && key.code is Enter
            && app.config.credentials.len() > 0,
        key_step(app, key).1 is ScanScreen || key_step(app, key).1 is CopyCode || key_step(
            app,
            key,
        ).1 is Quit || key_step(app, key).1 is Continue,
{
}

/// A key that comes up changes nothing, whatever the program is at, and nor does an event that is
/// neither a key nor pasted text.
pub proof fn released_keys_change_nothing(app: AppView, key: Key)
    requires
        key.kind is Release,
    ensures
        event_step(app, Event::Key(key)) == (app, ActionView::Continue),
        event_step(app, Event::Other) == (app, ActionView::Continue),
{
}

/// A key that edits a prompt's line changes the line alone; in the prompt for a source it also
/// ends a completion and takes back what was told.
pub proof fn typing_edits_the_line(app: AppView, line: Line, key: Key)
    requires
        app.mode == ModeView::Rename(line) || app.mode == ModeView::Add(line),
        !(key.kind is Release),
        !(key.code == KeyCode::Char('c') && key.modifiers.control),
        !(key.code is Esc || key.code is Enter),
        app.mode is Add ==> !(key.code is Tab || key.code is BackTab),
    ensures
        key_step(app, key).1 is Continue,
        app.mode is Rename ==> key_step(app, key).0 == (AppView {
            mode: ModeView::Rename(edited(line, key.code, key.modifiers.mask() as u8)),
            ..app
        }),
        app.mode is Add ==> key_step(app, key).0 == (AppView {
            mode: ModeView::Add(edited(line, key.code, key.modifiers.mask() as u8)),
            message: None,
            path_completion: None,
            ..app
        }),
{
}

/// Escape closes a prompt without a trace: what was told is taken back, a completion in the prompt
/// for a source ends, and nothing else changes.
pub proof fn escape_closes_prompts(app: AppView, key: Key)
    requires
        key.code is Esc,
        !(key.kind is Release),
    ensures
        key_step(app, key).1 is Continue,
        app.mode is Rename ==> key_step(app, key).0 == (AppView {
            mode: ModeView::Normal,
            message: None,
            ..app
        }),
        app.mode is Add ==> key_step(app, key).0 == (AppView {
            mode: ModeView::Normal,
            message: None,
            path_completion: None,
            ..app
        }),
        app.mode is ConfirmDelete ==> key_step(app, key).0 == (AppView {
            mode: ModeView::Normal,
            ..app
        }),
        app.mode is Normal ==> key_step(app, key).0 == app,
{
}

/// Pasted text goes into the line of the open prompt, at the cursor, without the white space at
/// its ends, and the cursor then stands behind it; a completion ends, and nothing else changes.
/// Where no prompt is open nothing changes at all.
pub proof fn pasting_goes_into_the_line(app: AppView, text: String)
    requires
        app.mode matches ModeView::Rename(line) ==> line.cursor <= line.text.len(),
        app.mode matches ModeView::Add(line) ==> line.cursor <= line.text.len(),
    ensures
        ({
            let (taken, action) = event_step(app, Event::Paste(text));
            let piece = trimmed(text@);
            &&& action is Continue
            &&& app.mode is Normal || app.mode is ConfirmDelete ==> taken == app
            &&& app.mode matches ModeView::Rename(line) ==> {
                &&& taken.mode matches ModeView::Rename(held)
                &&& holds_piece(line, piece, held)
                &&& taken == AppView { mode: taken.mode, path_completion: None, ..app }
            }
            &&& app.mode matches ModeView::Add(line) ==> {
                &&& taken.mode matches ModeView::Add(held)
                &&& holds_piece(line, piece, held)
                &&& taken == AppView { mode: taken.mode, path_completion: None, ..app }
            }
        }),
{
    match app.mode {
        ModeView::Rename(line) => pasting_keeps_the_rest(line, trimmed(text@)),
        ModeView::Add(line) => pasting_keeps_the_rest(line, trimmed(text@)),
        _ => {},
    }
}

/// What is added stands behind what was stored, piece by piece as it was found and under the next
/// free numbers; the last of it is selected. No prompt closes before it is written, and where it
/// is not written all is as it was. Nothing and too many credentials are refused.
pub proof fn added_credentials_come_last(
    app: AppView,
    new: Seq<NewCredentialView>,
    after: AfterSave,
    failure: Seq<char>,
)
    ensures
        new.len() == 0 ==> adding_step(app, new, after) == (
            AppView { message: Some("No credentials found"@), ..app },
            ActionView::Continue,
        ),
        new.len() > 0 && app.config.next_id + new.len() > u64::MAX ==> adding_step(app, new, after)
            == (
            AppView { message: Some("Credential ID limit reached"@), ..app },
            ActionView::Continue,
        ),
        new.len() > 0 && app.config.next_id + new.len() <= u64::MAX ==> ({
            let (added, action) = adding_step(app, new, after);
            let before = app.config.credentials;
            let held = added.config.credentials;
            &&& held.len() == before.len() + new.len()
            &&& forall|i: int| 0 <= i < before.len() ==> #[trigger] held[i] == before[i]
            &&& forall|i: int|
                0 <= i < new.len() ==> {
                    &&& (#[trigger] held[before.len() + i]).id == app.config.next_id + i
                    &&& held[before.len() + i].issuer == new[i].issuer
                    &&& held[before.len() + i].name == new[i].name
                    &&& held[before.len() + i].url == new[i].url
                }
            &&& added.config.next_id == app.config.next_id + new.len()
            &&& added.selected == held.len() - 1
            &&& added.scroll == app.scroll
            &&& added.mode == app.mode
            &&& added.path_completion == app.path_completion
            &&& action is Save
            &&& settled((added, action), None).config == added.config
            &&& settled((added, action), None).selected == added.selected
            &&& settled((added, action), None).message == Some(
                "Added "@ + decimal(new.len()) + " credential(s)"@,
            )
            &&& settled((added, action), None).mode == match after {
                AfterSave::Stay => app.mode,
                _ => ModeView::Normal,
            }
            &&& settled((added, action), None).path_completion == match after {
                AfterSave::CloseAdd => None,
                _ => app.path_completion,
            }
            &&& settled((added, action), Some(failure)).config == app.config
            &&& settled((added, action), Some(failure)).mode == app.mode
            &&& settled((added, action), Some(failure)).path_completion == app.path_completion
        }),
{
}

/// Where the store was not written, what was stored before is back, and the user is told so. The
/// selection stays where it is, or goes to the last credential where it lies behind it, and the
/// screen does not begin behind it; the rest of the state stays.
pub proof fn failed_saves_restore(app: AppView, pending: PendingSaveView, failure: Seq<char>)
    ensures
        ({
            let restored = saved_state(app, pending, Some(failure));
            let count = pending.previous.credentials.len();
            &&& restored.config == pending.previous
            &&& restored.message == Some("Save failed: "@ + failure)
            &&& restored.mode == app.mode
            &&& restored.path_completion == app.path_completion
            &&& count == 0 ==> restored.selected == 0
            &&& 0 <= app.selected < count ==> restored.selected == app.selected
            &&& count > 0 && app.selected >= count ==> restored.selected == count - 1
            &&& app.scroll <= restored.selected ==> restored.scroll == app.scroll
            &&& app.scroll > restored.selected ==> restored.scroll == restored.selected
        }),
{
}

/// Where the store was written the user is told of the change, and the prompt that it came from
/// closes; what is stored, what is selected and the screen stay.
pub proof fn finished_saves_are_told(app: AppView, pending: PendingSaveView)
    ensures
        ({
            let written = saved_state(app, pending, None);
            &&& written.config == app.config
            &&& written.selected == app.selected
            &&& written.scroll == app.scroll
            &&& written.message == Some(pending.success)
            &&& pending.after is Stay ==> written.mode == app.mode
            &&& !(pending.after is Stay) ==> written.mode is Normal
            &&& pending.after is CloseAdd ==> written.path_completion is None
            &&& !(pending.after is CloseAdd) ==> written.path_completion == app.path_completion
        }),
{
}

/// Enter in the prompt for a source adds the credentials of the URL that the prompt holds, without
/// the white space at its ends, or has the image read that it names otherwise. A URL that yields
/// no credentials is told; an empty prompt is refused.
pub proof fn entered_sources_are_added(app: AppView, line: Line, key: Key)
    requires
        app.mode == ModeView::Add(line),
        key.code is Enter,
        !(key.kind is Release),
    ensures
        ({
            let source = trimmed(line.text);
            let is_url = "otpauth://"@.is_prefix_of(source)
                || "otpauth-migration://"@.is_prefix_of(source);
            &&& source.len() == 0 ==> key_step(app, key) == (
                AppView { message: Some("Enter a URL or image path"@), ..app },
                ActionView::Continue,
            )
            &&& source.len() > 0 && !is_url ==> key_step(app, key) == (
                app,
                ActionView::ReadImage(source),
            )
            &&& is_url ==> match url_credentials(source) {
                Ok(found) => key_step(app, key) == adding_step(app, found, AfterSave::CloseAdd),
                Err(error) => key_step(app, key) == (
                    AppView { message: Some("Add failed: "@ + error.text()), ..app },
                    ActionView::Continue,
                ),
            }
        }),
{
    reveal_strlit("otpauth://");
    reveal_strlit("otpauth-migration://");
}

/// The QR code of an image stands for the URL that it holds, without the white space at its ends:
/// its credentials are added, and the prompt for a source then closes. Why there are none is told.
pub proof fn read_images_are_added(app: AppView, decoded: Seq<char>, failure: Seq<char>)
    ensures
        match url_credentials(trimmed(decoded)) {
            Ok(found) => image_step(app, Ok(decoded)) == adding_step(
                app,
                found,
                AfterSave::CloseAdd,
            ),
            Err(error) => image_step(app, Ok(decoded)) == (
                AppView { message: Some("Add failed: "@ + error.text()), ..app },
                ActionView::Continue,
            ),
        },
        image_step(app, Err(failure)) == (
            AppView { message: Some("Add failed: "@ + failure), ..app },
            ActionView::Continue,
        ),
{
}

/// What a scan of the screen yields is added, and no prompt closes; why it yields nothing is told.
pub proof fn scanned_credentials_are_added(
    app: AppView,
    found: Seq<NewCredentialView>,
    failure: Seq<char>,
)
    ensures
        scan_step(app, Ok(found)) == adding_step(app, found, AfterSave::Stay),
        scan_step(app, Err(failure)) == (
            AppView { message: Some("Screen scan failed: "@ + failure), ..app },
            ActionView::Continue,
        ),
{
}

/// Tab in the prompt for a source asks for the directory of the path at the cursor where no
/// completion is under way, or where its only candidate is a directory that the line shows to its
/// end; and then nothing changes yet. A URL that names credentials has no directory: no path
/// matches it.
pub proof fn completions_begin_with_a_listing(app: AppView, line: Line, key: Key)
    requires
        app.mode == ModeView::Add(line),
        key.code is Tab || key.code is BackTab,
        !(key.kind is Release),
        app.path_completion matches Some(state) ==> {
            &&& state.candidates.len() == 1
            &&& state.candidates[0].value == line.text
            &&& state.candidates[0].cursor == line.cursor
            &&& line.cursor == line.text.len()
            &&& line.text.len() > 0
            &&& line.text.last() == '/'
        },
        line.cursor <= line.text.len(),
    ensures
        ({
            let before = line.text.take(line.cursor as int);
            let is_url = "otpauth://"@.is_prefix_of(before)
                || "otpauth-migration://"@.is_prefix_of(before);
            let (asked, action) = key_step(app, key);
            &&& is_url ==> action is Continue && asked == AppView {
                message: Some("No path matches"@),
                path_completion: None,
                ..app
            }
            &&& !is_url ==> {
                &&& asked == app
                &&& action matches ActionView::ListDirectory { query, backwards }
                &&& backwards == key.code is BackTab
                &&& query == path_query(before, line.text.skip(line.cursor as int))
            }
        }),
{
}

/// Tab in the prompt for a source shows the next candidate of a completion that is under way, and
/// the key back the previous one; the first follows the last. The line shows that candidate with
/// its cursor, and the user is told which of them it is.
pub proof fn completions_go_on_with_the_next_candidate(
    app: AppView,
    line: Line,
    state: PathCompletionView,
    key: Key,
)
    requires
        app.mode == ModeView::Add(line),
        app.path_completion == Some(state),
        0 <= state.index < state.candidates.len(),
        key.code is Tab || key.code is BackTab,
        !(key.kind is Release),
        state.candidates.len() > 1 || line.text != state.candidates[0].value || line.cursor
            != state.candidates[0].cursor || line.cursor != line.text.len() || line.text.len() == 0
            || line.text.last() != '/',
    ensures
        ({
            let (shown, action) = key_step(app, key);
            let count = state.candidates.len();
            let step: int = if key.code is BackTab {
                -1
            } else {
                1
            };
            &&& action is Continue
            &&& shown.path_completion matches Some(next)
            &&& next.candidates == state.candidates
            &&& next.index == (state.index + step) % (count as int)
            &&& shows_candidate(app, next, shown)
        }),
{
    let count = state.candidates.len() as int;
    if key.code is BackTab {
        vstd::arithmetic::div_mod::lemma_fundamental_div_mod_converse(
            state.index - 1,
            count,
            if state.index == 0 { -1int } else { 0int },
            if state.index == 0 { count - 1 } else { state.index - 1 },
        );
    } else {
        vstd::arithmetic::div_mod::lemma_fundamental_div_mod_converse(
            state.index + 1,
            count,
            if state.index + 1 == count { 1int } else { 0int },
            if state.index + 1 == count { 0 } else { state.index + 1 },
        );
    }
}

/// Whether `shown` is the state `app` but for its prompt for a source, whose line shows the
/// candidate that `completion` is at, and for what the user is told: which of how many it is.
pub open spec fn shows_candidate(
    app: AppView,
    completion: PathCompletionView,
    shown: AppView,
) -> bool {
    let candidate = completion.candidates[completion.index];
    &&& shown.mode matches ModeView::Add(line)
    &&& line.text == candidate.value
    &&& candidate.cursor <= candidate.value.len() ==> line.cursor == candidate.cursor
    &&& line.yank.len() == 0
    &&& !line.was_cut
    &&& shown == AppView {
        mode: shown.mode,
        path_completion: Some(completion),
        message: Some(
            "Path match "@ + decimal((completion.index + 1) as nat) + "/"@ + decimal(
                completion.candidates.len(),
            ),
        ),
        ..app
    }
}

/// Once the directory is listed, the first candidate is shown, or the last one for the key back.
/// Where there is no candidate the line stays, no completion is under way, and the user is told
/// so; where the directory cannot be listed that alone is told. When the prompt for a source is
/// not open any more, nothing changes.
pub proof fn listings_offer_a_candidate(
    app: AppView,
    query: CompletionQueryView,
    backwards: bool,
    entries: Seq<DirectoryEntryView>,
    failure: Seq<char>,
)
    ensures
        !(app.mode is Add) ==> listed_state(app, query, backwards, Ok(entries)) == app
            && listed_state(app, query, backwards, Err(failure)) == app,
        app.mode is Add ==> listed_state(app, query, backwards, Err(failure)) == (AppView {
            message: Some("Path completion failed: "@ + failure),
            ..app
        }),
        app.mode is Add && query.candidates(entries).len() == 0 ==> listed_state(
            app,
            query,
            backwards,
            Ok(entries),
        ) == (AppView { message: Some("No path matches"@), path_completion: None, ..app }),
        app.mode is Add && query.candidates(entries).len() > 0 ==> ({
            let shown = listed_state(app, query, backwards, Ok(entries));
            &&& shown.path_completion matches Some(state)
            &&& state.candidates == query.candidates(entries)
            &&& !backwards ==> state.index == 0
            &&& backwards ==> state.index == state.candidates.len() - 1
            &&& shows_candidate(app, state, shown)
        }),
{
}

/// The program begins with nothing but what is stored, and the first credential selected.
pub proof fn the_program_begins_at_the_first_credential(config: ConfigView)
    ensures
        initial(config).config == config,
        initial(config).selected == 0,
        initial(config).scroll == 0,
        initial(config).mode is Normal,
        initial(config).message is None,
        initial(config).path_completion is None,
        initial(config).is_sound(),
{
}

/// The selected credential is the one at the place of the selection, where there are any.
pub proof fn the_selection_is_a_credential(app: AppView)
    requires
        app.is_sound(),
    ensures
        app.config.credentials.len() > 0 ==> app.selection() == Some(
            app.config.credentials[app.selected],
        ),
        app.config.credentials.len() == 0 ==> app.selection() is None,
{
}

/// A handled key that renames leaves every other credential as it was, and of the selected one its
/// number, issuer and URL.
pub proof fn handled_renames_keep_secrets(
    app: &mut App,
    input: Input,
    key: Key,
    action: Action,
)
    requires
        call_ensures(handle_key, (app, key), action),
        old(app).mode == Mode::Rename(input),
        key.code is Enter,
        !(key.kind is Release),
        trimmed(line(input).text).len() > 0,
        old(app).selected < old(app).config.credentials@.len(),
    ensures
        ({
            let before = old(app).config.credentials@;
            let after = final(app).config.credentials@;
            let selected = old(app).selected as int;
            &&& final(app).config.next_id == old(app).config.next_id
            &&& after.len() == before.len()
            &&& forall|i: int|
                0 <= i < before.len() && i != selected ==> (#[trigger] after[i])@ == before[i]@
            &&& after[selected].id == before[selected].id
            &&& after[selected].issuer@ == before[selected].issuer@
            &&& after[selected].url@ == before[selected].url@
            &&& after[selected].name@ == trimmed(line(input).text)
            &&& action matches Action::Save(pending) && pending.previous@ == old(app).config@
        }),
{
    let before = old(app).config.credentials@;
    let after = final(app).config.credentials@;
    let selected = old(app).selected as int;
    renaming_changes_one_name(old(app)@, line(input), key, Seq::empty());
    assert(final(app)@.config.credentials.len() == after.len());
    assert(old(app)@.config.credentials.len() == before.len());
    assert forall|i: int| 0 <= i < before.len() && i != selected implies (#[trigger] after[i])@
        == before[i]@ by {
        assert(final(app)@.config.credentials[i] == old(app)@.config.credentials[i]);
    }
    assert(final(app)@.config.credentials[selected] == after[selected]@);
    assert(old(app)@.config.credentials[selected] == before[selected]@);
}

/// A handled key that deletes takes the selected credential away and leaves the others as they
/// were, in their order.
pub proof fn handled_deletions_keep_the_others(app: &mut App, key: Key, action: Action)
    requires
        call_ensures(handle_key, (app, key), action),
        old(app).mode is ConfirmDelete,
        key.code == KeyCode::Char('y') || key.code == KeyCode::Char('Y'),
        !(key.kind is Release),
        old(app).selected < old(app).config.credentials@.len(),
    ensures
        ({
            let before = old(app).config.credentials@;
            let after = final(app).config.credentials@;
            let selected = old(app).selected as int;
            &&& after.len() == before.len() - 1
            &&& forall|i: int| 0 <= i < selected ==> (#[trigger] after[i])@ == before[i]@
            &&& forall|i: int| selected <= i < after.len() ==> (#[trigger] after[i])@ == before[i
                + 1]@
            &&& final(app).config.next_id == old(app).config.next_id
            &&& final(app).mode is Normal
            &&& action matches Action::Save(pending) && pending.previous@ == old(app).config@
        }),
{
    let before = old(app).config.credentials@;
    let after = final(app).config.credentials@;
    let selected = old(app).selected as int;
    deleting_takes_one_away(old(app)@, key, Seq::empty());
    assert(final(app)@.config.credentials.len() == after.len());
    assert(old(app)@.config.credentials.len() == before.len());
    assert forall|i: int| 0 <= i < selected implies (#[trigger] after[i])@ == before[i]@ by {
        assert(final(app)@.config.credentials[i] == old(app)@.config.credentials[i]);
    }
    assert forall|i: int| selected <= i < after.len() implies (#[trigger] after[i])@ == before[i
        + 1]@ by {
        assert(final(app)@.config.credentials[i] == old(app)@.config.credentials[i + 1]);
    }
}

/// A handled event makes the step that the state and the event alone decide, and what comes of what
/// was asked for does too.
pub proof fn handled_events_are_steps(
    app: &mut App,
    event: Event,
    action: Action,
    read: Result<String, FileError>,
    found: Result<Vec<NewCredential>, ScanError>,
)
    ensures
        call_ensures(handle_event, (app, event), action) ==> (final(app)@, action@) == step(
            old(app)@,
            Happening::Event(event),
        ),
        call_ensures(image_read, (app, read), action) ==> (final(app)@, action@) == step(
            old(app)@,
            Happening::ImageRead(
                match read {
                    Ok(decoded) => Ok(decoded@),
                    Err(error) => Err(error.text()),
                },
            ),
        ),
        call_ensures(screen_scanned, (app, found), action) ==> (final(app)@, action@) == step(
            old(app)@,
            Happening::ScreenScanned(
                match found {
                    Ok(credentials) => Ok(views(credentials@)),
                    Err(error) => Err(error@.text()),
                },
            ),
        ),
{
}

} // verus!
