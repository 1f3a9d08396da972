//! How the program takes the outcomes of what it asked for.
use crate::app::{
    add_credentials, adding_step, completed_state, credentials_found, source_step, Action,
    ActionView, AfterSave, App, AppView, Mode, ModeView,
};
use crate::candidates::{path_completion_candidates, DirectoryEntry, DirectoryEntryView};
use crate::codes::{checked_current_code, code_at, is_code, uncomputable_url};
use crate::completion::{
    offer_candidates, offered, CompletionQuery, CompletionQueryView, CompletionStepView,
};
use crate::config::{views, NewCredential, NewCredentialView};
use crate::otpauth::otpauth_url;
use crate::sources::{credentials_from_qr_text, qr_credentials, FileError, ScanError};
use vstd::prelude::*;
use vstd::string::StringExecFns;

verus! {

/// The step of what an image was read as.
pub open spec fn image_step(app: AppView, read: Result<Seq<char>, Seq<char>>) -> (
    AppView,
    ActionView,
) {
    match read {
        Ok(decoded) => source_step(app, qr_credentials(decoded)),
        Err(text) => (app.telling("Add failed: "@ + text), ActionView::Continue),
    }
}

/// Takes the text of the QR code in the image that was asked for.
pub fn image_read(app: &mut App, read: Result<String, FileError>) -> (action: Action)
    requires
        old(app)@.is_sound(),
    ensures
        (final(app)@, action@) == image_step(
            old(app)@,
            match read {
                Ok(decoded) => Ok(decoded@),
                Err(error) => Err(error.text()),
            },
        ),
        final(app)@.is_sound(),
{
    match read {
        Ok(decoded) => credentials_found(app, credentials_from_qr_text(decoded.as_str())),
        Err(error) => {
            let mut text = "Add failed: ".to_owned();
            text.append(error.message().as_str());
            app.message = Some(text);
            Action::Continue
        },
    }
}

/// The step of what a scan of the screen yielded.
pub open spec fn scan_step(app: AppView, scanned: Result<Seq<NewCredentialView>, Seq<char>>) -> (
    AppView,
    ActionView,
) {
    match scanned {
        Ok(credentials) => adding_step(app, credentials, AfterSave::Stay),
        Err(text) => (app.telling("Screen scan failed: "@ + text), ActionView::Continue),
    }
}

/// Takes what the scan of the screen yielded.
pub fn screen_scanned(app: &mut App, scanned: Result<Vec<NewCredential>, ScanError>) -> (action:
    Action)
    requires
        old(app)@.is_sound(),
    ensures
        (final(app)@, action@) == scan_step(
            old(app)@,
            match scanned {
                Ok(credentials) => Ok(views(credentials@)),
                Err(error) => Err(error@.text()),
            },
        ),
        final(app)@.is_sound(),
{
    match scanned {
        Ok(credentials) => add_credentials(app, credentials, AfterSave::Stay),
        Err(error) => {
            let mut text = "Screen scan failed: ".to_owned();
            text.append(error.message().as_str());
            app.message = Some(text);
            Action::Continue
        },
    }
}

/// The state after the directory that a completion asked for was listed.
pub open spec fn listed_state(
    app: AppView,
    query: CompletionQueryView,
    backwards: bool,
    listed: Result<Seq<DirectoryEntryView>, Seq<char>>,
) -> AppView {
    match (app.mode, listed) {
        (ModeView::Add(line), Ok(entries)) => match offered(
            line,
            query.candidates(entries),
            backwards,
        ) {
            CompletionStepView::Done { line, completion, message } => completed_state(
                app,
                line,
                completion,
                message,
            ),
            CompletionStepView::List(_) => app,
        },
        (ModeView::Add(_), Err(text)) => app.telling("Path completion failed: "@ + text),
        _ => app,
    }
}

/// Takes the entries of the directory that a completion asked for. When the prompt for a source
/// is not open any more, they are of no use.
pub fn directory_listed(
    app: &mut App,
    query: &CompletionQuery,
    backwards: bool,
    listed: Result<Vec<DirectoryEntry>, FileError>,
)
    requires
        old(app)@.is_sound(),
    ensures
        final(app)@ == listed_state(
            old(app)@,
            query@,
            backwards,
            match listed {
                Ok(entries) => Ok(views(entries@)),
                Err(error) => Err(error.text()),
            },
        ),
        final(app)@.is_sound(),
{
    let mut mode = Mode::Normal;
    core::mem::swap(&mut app.mode, &mut mode);
    match mode {
        Mode::Add(input) => {
            let mut input = input;
            match listed {
                Ok(entries) => {
                    let candidates = path_completion_candidates(query, &entries);
                    let told = offer_candidates(
                        &mut input,
                        &mut app.path_completion,
                        backwards,
                        candidates,
                    );
                    app.message = match told {
                        Some(text) => Some(text),
                        None => Some("No path matches".to_owned()),
                    };
                },
                Err(error) => {
                    let mut text = "Path completion failed: ".to_owned();
                    text.append(error.message().as_str());
                    app.message = Some(text);
                },
            }
            app.mode = Mode::Add(input);
        },
        other => {
            app.mode = other;
        },
    }
}

/// Why a code was not copied.
#[derive(Debug)]
pub enum CopyError {
    /// No credential is selected.
    NoSelection,
    /// The credential has no code, for the reason told.
    NoCode(String),
    /// There is no clipboard, for the given reason.
    NoClipboard(String),
    /// The clipboard did not take the code, for the given reason.
    NotTaken(String),
}

impl CopyError {
    /// What the user is told.
    pub open spec fn text(self) -> Seq<char> {
        match self {
            CopyError::NoSelection => "No credential selected"@,
            CopyError::NoCode(reason) => reason@,
            CopyError::NoClipboard(cause) => "Failed to access clipboard: "@ + cause@,
            CopyError::NotTaken(cause) => "Failed to copy code: "@ + cause@,
        }
    }

    /// What the user is told.
    pub fn message(&self) -> (text: String)
        ensures
            text@ == self.text(),
    {
        match self {
            CopyError::NoSelection => "No credential selected".to_owned(),
            CopyError::NoCode(reason) => reason.clone(),
            CopyError::NoClipboard(cause) => {
                let mut text = "Failed to access clipboard: ".to_owned();
                text.append(cause.as_str());
                text
            },
            CopyError::NotTaken(cause) => {
                let mut text = "Failed to copy code: ".to_owned();
                text.append(cause.as_str());
                text
            },
        }
    }
}

/// The code of the selected credential, to be copied; nothing where its URL gives no computable
/// code.
pub fn copy_selected_code(app: &App) -> (code: Option<Result<String, CopyError>>)
    ensures
        app@.selection() is None ==> code == Some::<Result<String, CopyError>>(
            Err(CopyError::NoSelection),
        ),
        app@.selection() matches Some(credential) ==> (code is None <==> uncomputable_url(
            credential.url,
        )),
        app@.selection() matches Some(credential) ==> (code matches Some(Ok(text)) ==> is_code(
            credential.url,
            text@,
        )),
        app@.selection() matches Some(credential) ==> (code matches Some(Err(error)) ==> (
        otpauth_url(credential.url) matches Err(cause) && error.text()
            == "Invalid credential URL: "@ + cause)),
{
    match app.selected() {
        None => Some(Err(CopyError::NoSelection)),
        Some(credential) => {
            let ghost url = app@.selection().unwrap().url;
            assert(url == credential.url@);
            match checked_current_code(credential) {
                None => None,
                Some(Ok(pair)) => {
                    assert(is_code(url, pair.0@));
                    Some(Ok(pair.0))
                },
                Some(Err(reason)) => {
                    let error = CopyError::NoCode(reason);
                    assert(error.text() == "Invalid credential URL: "@ + otpauth_url(url)->Err_0);
                    Some(Err(error))
                },
            }
        },
    }
}

/// Takes the outcome of copying a code.
pub fn code_copied(app: &mut App, copied: Result<(), CopyError>)
    requires
        old(app)@.is_sound(),
    ensures
        final(app)@ == old(app)@.telling(
            match copied {
                Ok(_) => "Code copied"@,
                Err(error) => "Copy failed: "@ + error.text(),
            },
        ),
        final(app)@.is_sound(),
{
    match copied {
        Ok(_) => {
            app.message = Some("Code copied".to_owned());
        },
        Err(error) => {
            let mut text = "Copy failed: ".to_owned();
            text.append(error.message().as_str());
            app.message = Some(text);
        },
    }
}

/// The code that is copied is one of the selected credential's own URL. Without a selection there
/// is none, and where the URL cannot be read that is the reason.
pub proof fn the_selected_code_is_copied(app: &App, code: Option<Result<String, CopyError>>)
    requires
        call_ensures(copy_selected_code, (app,), code),
    ensures
        app.selected >= app.config.credentials@.len() ==> (code matches Some(Err(error))
            && error is NoSelection),
        app.selected < app.config.credentials@.len() ==> match otpauth_url(
            app.config.credentials@[app.selected as int].url@,
        ) {
            Err(cause) => code matches Some(Err(error)) && error.text()
                == "Invalid credential URL: "@ + cause,
            Ok(parameters) => if parameters.digits >= 10 || parameters.step == 0 {
                code is None
            } else {
                code matches Some(Ok(text)) && exists|time: u64|
                    text@ == #[trigger] code_at(
                        app.config.credentials@[app.selected as int].url@,
                        time,
                    )
            },
        },
{
    assert(app@.config.credentials.len() == app.config.credentials@.len());
    if app.selected < app.config.credentials@.len() {
        assert(app@.config.credentials[app.selected as int]
            == app.config.credentials@[app.selected as int]@);
    }
}

/// Whether a code was copied is told, with the reason where it was not, and changes nothing else.
pub proof fn copies_are_told(app: &mut App, copied: Result<(), CopyError>)
    requires
        call_ensures(code_copied, (app, copied), ()),
    ensures
        final(app)@ == (AppView { message: final(app)@.message, ..old(app)@ }),
        copied is Ok ==> final(app)@.message == Some("Code copied"@),
        copied matches Err(error) ==> final(app)@.message == Some("Copy failed: "@ + error.text()),
{
}

/// Why a code was not copied is told in these words.
pub proof fn failed_copies_have_reasons(cause: String)
    ensures
        CopyError::NoSelection.text() == "No credential selected"@,
        CopyError::NoCode(cause).text() == cause@,
        CopyError::NoClipboard(cause).text() == "Failed to access clipboard: "@ + cause@,
        CopyError::NotTaken(cause).text() == "Failed to copy code: "@ + cause@,
{
}

} // verus!
