//! The state of the program, and how credentials are added to it.
use crate::completion::{
    completion_view, CompletionQuery, CompletionQueryView, PathCompletion, PathCompletionView,
};
use crate::config::{
    views, Config, ConfigView, Credential, CredentialView, NewCredential, NewCredentialView,
};
use crate::otpauth::{outcome, CredentialError, CredentialErrorView};
use crate::prompt::{line, Line};
use crate::store::StoreError;
use crate::text::{decimal, push_decimal};
use tui_input::Input;
use vstd::prelude::*;
use vstd::string::StringExecFns;

verus! {

/// What the keys mean at the moment.
pub enum Mode {
    Normal,
    ConfirmDelete,
    Rename(Input),
    Add(Input),
}

/// What the keys mean at the moment, as a value.
#[verifier::ext_equal]
pub enum ModeView {
    Normal,
    ConfirmDelete,
    Rename(Line),
    Add(Line),
}

impl View for Mode {
    type V = ModeView;

    open spec fn view(&self) -> ModeView {
        match self {
            Mode::Normal => ModeView::Normal,
            Mode::ConfirmDelete => ModeView::ConfirmDelete,
            Mode::Rename(input) => ModeView::Rename(line(*input)),
            Mode::Add(input) => ModeView::Add(line(*input)),
        }
    }
}

/// The state of the program.
pub struct App {
    pub config: Config,
    /// The selected credential.
    pub selected: usize,
    /// The first credential on the screen.
    pub scroll: usize,
    pub mode: Mode,
    /// What the user is told.
    pub message: Option<String>,
    pub path_completion: Option<PathCompletion>,
}

/// The state of the program, as a value.
#[verifier::ext_equal]
pub struct AppView {
    pub config: ConfigView,
    pub selected: int,
    pub scroll: int,
    pub mode: ModeView,
    pub message: Option<Seq<char>>,
    pub path_completion: Option<PathCompletionView>,
}

/// A text that may be missing, as a value.
pub open spec fn optional_text(text: Option<String>) -> Option<Seq<char>> {
    match text {
        Some(text) => Some(text@),
        None => None,
    }
}

impl View for App {
    type V = AppView;

    open spec fn view(&self) -> AppView {
        AppView {
            config: self.config@,
            selected: self.selected as int,
            scroll: self.scroll as int,
            mode: self.mode@,
            message: optional_text(self.message),
            path_completion: completion_view(self.path_completion),
        }
    }
}

/// What happens after the store was written.
#[derive(Clone, Copy, Debug, PartialEq, Eq, Structural)]
pub enum AfterSave {
    /// Nothing more.
    Stay,
    /// The prompt for a new name is closed.
    CloseRename,
    /// The prompt for a source is closed.
    CloseAdd,
}

/// A change of the store that still has to be written.
pub struct PendingSave {
    /// What was stored before.
    pub previous: Config,
    /// What the user is told when it is written.
    pub success: String,
    pub after: AfterSave,
}

/// A change of the store that still has to be written, as a value.
#[verifier::ext_equal]
pub struct PendingSaveView {
    pub previous: ConfigView,
    pub success: Seq<char>,
    pub after: AfterSave,
}

impl View for PendingSave {
    type V = PendingSaveView;

    open spec fn view(&self) -> PendingSaveView {
        PendingSaveView { previous: self.previous@, success: self.success@, after: self.after }
    }
}

/// What the program has to do outside before it goes on.
pub enum Action {
    /// Nothing.
    Continue,
    /// End.
    Quit,
    /// Look for QR codes on the displays: `screen_scanned` takes the outcome.
    ScanScreen,
    /// Copy the code of the selected credential: `code_copied` takes the outcome.
    CopyCode,
    /// Write the store: `save_or_restore` takes the outcome.
    Save(PendingSave),
    /// List a directory: `directory_listed` takes the outcome.
    ListDirectory { query: CompletionQuery, backwards: bool },
    /// Read the QR code in an image: `image_read` takes the outcome.
    ReadImage(String),
}

/// What the program has to do outside before it goes on, as a value.
#[verifier::ext_equal]
pub enum ActionView {
    Continue,
    Quit,
    ScanScreen,
    CopyCode,
    Save(PendingSaveView),
    ListDirectory { query: CompletionQueryView, backwards: bool },
    ReadImage(Seq<char>),
}

impl View for Action {
    type V = ActionView;

    open spec fn view(&self) -> ActionView {
        match self {
            Action::Continue => ActionView::Continue,
            Action::Quit => ActionView::Quit,
            Action::ScanScreen => ActionView::ScanScreen,
            Action::CopyCode => ActionView::CopyCode,
            Action::Save(pending) => ActionView::Save(pending@),
            Action::ListDirectory { query, backwards } => ActionView::ListDirectory {
                query: query@,
                backwards: *backwards,
            },
            Action::ReadImage(path) => ActionView::ReadImage(path@),
        }
    }
}

impl AppView {
    /// The selection and the first credential on the screen exist, unless there are none, and a
    /// completion under way shows one of its candidates.
    pub open spec fn is_sound(self) -> bool {
        &&& 0 <= self.selected
        &&& self.selected == 0 || self.selected < self.config.credentials.len()
        &&& 0 <= self.scroll
        &&& self.scroll == 0 || self.scroll < self.config.credentials.len()
        &&& self.path_completion matches Some(state) ==> state.is_sound()
    }

    /// The selected credential.
    pub open spec fn selection(self) -> Option<CredentialView> {
        if 0 <= self.selected < self.config.credentials.len() {
            Some(self.config.credentials[self.selected])
        } else {
            None
        }
    }

    /// The state with a selection that exists: the last credential where the selection went past
    /// it, and the first credential on the screen not behind the selection.
    pub open spec fn clamped(self) -> AppView {
        let count = self.config.credentials.len();
        let selected = if count == 0 {
            0
        } else if self.selected < count {
            self.selected
        } else {
            count - 1
        };
        let scroll = if self.scroll < selected {
            self.scroll
        } else {
            selected
        };
        AppView { selected, scroll, ..self }
    }

    /// The state that tells the user `text`.
    pub open spec fn telling(self, text: Seq<char>) -> AppView {
        AppView { message: Some(text), ..self }
    }
}

/// The state to begin with.
pub open spec fn initial(config: ConfigView) -> AppView {
    AppView {
        config,
        selected: 0,
        scroll: 0,
        mode: ModeView::Normal,
        message: None,
        path_completion: None,
    }
}

impl App {
    /// The state to begin with.
    pub fn new(config: Config) -> (app: App)
        ensures
            app@ == initial(config@),
            app@.is_sound(),
    {
        App {
            config,
            selected: 0,
            scroll: 0,
            mode: Mode::Normal,
            message: None,
            path_completion: None,
        }
    }

    /// The selected credential.
    pub fn selected(&self) -> (credential: Option<&Credential>)
        ensures
            match self@.selection() {
                Some(wanted) => credential matches Some(found) && found@ == wanted,
                None => credential is None,
            },
    {
        if self.selected < self.config.credentials.len() {
            assert(self@.config.credentials[self.selected as int]
                == self.config.credentials@[self.selected as int]@);
            Some(&self.config.credentials[self.selected])
        } else {
            None
        }
    }

    /// Moves the selection to a credential that exists, and the screen with it.
    pub fn keep_selection_valid(&mut self)
        ensures
            final(self)@ == old(self)@.clamped(),
    {
        let count: usize = self.config.credentials.len();
        if count == 0 {
            self.selected = 0;
            self.scroll = 0;
        } else {
            if self.selected >= count {
                self.selected = count - 1;
            }
            if self.scroll > self.selected {
                self.scroll = self.selected;
            }
        }
    }
}

/// What an added number of credentials is announced with.
pub open spec fn added_text(count: nat) -> Seq<char> {
    "Added "@ + decimal(count) + " credential(s)"@
}

/// The step that adds credentials: the last of them is selected, and the store has to be written.
pub open spec fn adding_step(
    app: AppView,
    credentials: Seq<NewCredentialView>,
    after: AfterSave,
) -> (AppView, ActionView) {
    match app.config.adding(credentials) {
        Ok(config) => (
            AppView { config, selected: config.credentials.len() - 1, ..app },
            ActionView::Save(
                PendingSaveView {
                    previous: app.config,
                    success: added_text(credentials.len()),
                    after,
                },
            ),
        ),
        Err(error) => (app.telling(error.text()), ActionView::Continue),
    }
}

/// Adds credentials and selects the last of them; the store then has to be written. Where they
/// cannot be added the user is told why.
pub fn add_credentials(app: &mut App, credentials: Vec<NewCredential>, after: AfterSave) -> (action:
    Action)
    ensures
        (final(app)@, action@) == adding_step(old(app)@, views(credentials@), after),
        old(app)@.is_sound() ==> final(app)@.is_sound(),
{
    let previous = app.config.clone();
    match app.config.add(credentials) {
        Ok(count) => {
            assert(app.config.credentials@.len() == app.config@.credentials.len());
            app.selected = app.config.credentials.len() - 1;
            let mut success = "Added ".to_owned();
            push_decimal(&mut success, count as u64);
            success.append(" credential(s)");
            Action::Save(PendingSave { previous, success, after })
        },
        Err(error) => {
            app.message = Some(error.message());
            Action::Continue
        },
    }
}

/// The state after the attempt to write the store: where it failed, what was stored before is back.
pub open spec fn saved_state(
    app: AppView,
    pending: PendingSaveView,
    failure: Option<Seq<char>>,
) -> AppView {
    match failure {
        Some(text) => (AppView { config: pending.previous, ..app }).clamped().telling(
            "Save failed: "@ + text,
        ),
        None => {
            let told = app.telling(pending.success);
            match pending.after {
                AfterSave::Stay => told,
                AfterSave::CloseRename => AppView { mode: ModeView::Normal, ..told },
                AfterSave::CloseAdd => AppView {
                    mode: ModeView::Normal,
                    path_completion: None,
                    ..told
                },
            }
        },
    }
}

/// Takes the outcome of writing the store. Where it failed, all that was stored before is restored.
pub fn save_or_restore(app: &mut App, pending: PendingSave, saved: Result<(), StoreError>) -> (done:
    bool)
    ensures
        done == saved is Ok,
        final(app)@ == saved_state(
            old(app)@,
            pending@,
            match saved {
                Ok(_) => None,
                Err(error) => Some(error.text()),
            },
        ),
        old(app)@.is_sound() ==> final(app)@.is_sound(),
{
    match saved {
        Ok(_) => {
            app.message = Some(pending.success);
            match pending.after {
                AfterSave::Stay => {},
                AfterSave::CloseRename => {
                    app.mode = Mode::Normal;
                },
                AfterSave::CloseAdd => {
                    app.mode = Mode::Normal;
                    app.path_completion = None;
                },
            }
            true
        },
        Err(error) => {
            app.config = pending.previous;
            app.keep_selection_valid();
            let mut text = "Save failed: ".to_owned();
            text.append(error.message().as_str());
            app.message = Some(text);
            false
        },
    }
}

/// The state that a finished step of completing a path leads to.
pub open spec fn completed_state(
    app: AppView,
    line: Line,
    completion: Option<PathCompletionView>,
    message: Option<Seq<char>>,
) -> AppView {
    AppView {
        mode: ModeView::Add(line),
        path_completion: completion,
        message: Some(
            match message {
                Some(text) => text,
                None => "No path matches"@,
            },
        ),
        ..app
    }
}

/// The step that adds what the source that the user named yielded.
pub open spec fn source_step(
    app: AppView,
    credentials: Result<Seq<NewCredentialView>, CredentialErrorView>,
) -> (AppView, ActionView) {
    match credentials {
        Ok(credentials) => adding_step(app, credentials, AfterSave::CloseAdd),
        Err(error) => (app.telling("Add failed: "@ + error.text()), ActionView::Continue),
    }
}

/// Adds what the source that the user named yielded.
pub(crate) fn credentials_found(app: &mut App, credentials: Result<Vec<NewCredential>, CredentialError>) -> (
action: Action)
    ensures
        (final(app)@, action@) == source_step(old(app)@, outcome(credentials)),
{
    match credentials {
        Ok(credentials) => add_credentials(app, credentials, AfterSave::CloseAdd),
        Err(error) => {
            let mut text = "Add failed: ".to_owned();
            text.append(error.message().as_str());
            app.message = Some(text);
            Action::Continue
        },
    }
}

/// The state, and what is asked for, stand for themselves, field by field.
pub proof fn states_are_those_of_the_fields(app: App, pending: PendingSave)
    ensures
        app@.config == app.config@,
        app@.selected == app.selected,
        app@.scroll == app.scroll,
        app@.mode == app.mode@,
        app@.message is Some <==> app.message is Some,
        app.message matches Some(text) ==> app@.message == Some(text@),
        app@.path_completion is Some <==> app.path_completion is Some,
        app.path_completion matches Some(state) ==> app@.path_completion == Some(state@),
        pending@.previous == pending.previous@,
        pending@.success == pending.success@,
        pending@.after == pending.after,
        Action::Save(pending)@ == ActionView::Save(pending@),
        app.mode is Normal <==> app@.mode is Normal,
        app.mode is ConfirmDelete <==> app@.mode is ConfirmDelete,
        app.mode matches Mode::Rename(input) ==> app@.mode == ModeView::Rename(line(input)),
        app.mode matches Mode::Add(input) ==> app@.mode == ModeView::Add(line(input)),
{
}

/// The selected credential is the one at the place of the selection, and none where there is no
/// credential at that place.
pub proof fn the_selected_credential_is_found(app: &App, credential: Option<&Credential>)
    requires
        call_ensures(App::selected, (app,), credential),
    ensures
        app.selected < app.config.credentials@.len() ==> (credential matches Some(found) && found@
            == app.config.credentials@[app.selected as int]@),
        app.selected >= app.config.credentials@.len() ==> credential is None,
{
}

/// A selection that exists stays, and one behind the last credential goes to that; the screen does
/// not begin behind it. Nothing else changes.
pub proof fn selections_are_kept_valid(app: &mut App)
    requires
        call_ensures(App::keep_selection_valid, (app,), ()),
    ensures
        ({
            let count = old(app).config.credentials@.len();
            &&& final(app)@ == AppView {
                selected: final(app).selected as int,
                scroll: final(app).scroll as int,
                ..old(app)@
            }
            &&& count == 0 ==> final(app).selected == 0 && final(app).scroll == 0
            &&& old(app).selected < count ==> final(app).selected == old(app).selected
            &&& 0 < count <= old(app).selected ==> final(app).selected == count - 1
            &&& old(app).scroll <= final(app).selected ==> final(app).scroll == old(app).scroll
            &&& old(app).scroll > final(app).selected ==> final(app).scroll == final(app).selected
        }),
{
    assert(old(app)@.config.credentials.len() == old(app).config.credentials@.len());
}

/// A change that was written stays and is told, and one that was not is undone, with the reason
/// told; the caller learns which.
pub proof fn saves_are_told_or_undone(
    app: &mut App,
    pending: PendingSave,
    saved: Result<(), StoreError>,
    done: bool,
)
    requires
        call_ensures(save_or_restore, (app, pending, saved), done),
    ensures
        done <==> saved is Ok,
        done ==> final(app)@.config == old(app)@.config && final(app)@.message == Some(
            pending.success@,
        ) && final(app)@.selected == old(app)@.selected && final(app)@.scroll == old(app)@.scroll,
        done ==> final(app)@.mode == if pending.after is Stay {
            old(app)@.mode
        } else {
            ModeView::Normal
        },
        saved matches Err(error) ==> final(app)@.config == pending.previous@ && final(app)@.mode
            == old(app)@.mode && final(app)@.path_completion == old(app)@.path_completion
            && final(app)@.message == Some("Save failed: "@ + error.text()),
{
}

/// The program begins with what is stored, the first credential selected and nothing open or told.
pub proof fn programs_begin_with_the_store(config: Config, app: App)
    requires
        call_ensures(App::new, (config,), app),
    ensures
        app.config@ == config@,
        app.selected == 0,
        app.scroll == 0,
        app.mode is Normal,
        app.message is None,
        app.path_completion is None,
{
}

} // verus!
