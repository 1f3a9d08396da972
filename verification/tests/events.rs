use otpc::app::{save_or_restore, Action, App, Mode};
use otpc::candidates::DirectoryEntry;
use otpc::config::{Config, Credential, NewCredential};
use otpc::events::{handle_event, impossible};
use otpc::keys::{Event, Key, KeyCode, KeyKind, Modifiers};
use otpc::outcomes::{directory_listed, image_read, screen_scanned};
use otpc::sources::{FileError, ScanError};
use otpc::store::StoreError;

const URL: &str = "otpauth://totp/GitHub:carol?secret=KRSXG5CTMVRXEZLUKN2XAZLSKNSWG4TFOQ&issuer=GitHub";

const NONE: Modifiers = Modifiers {
    shift: false,
    control: false,
    alt: false,
    super_key: false,
    hyper: false,
    meta: false,
};

const CONTROL: Modifiers = Modifiers { control: true, ..NONE };

fn press_with(app: &mut App, code: KeyCode, modifiers: Modifiers) -> Action {
    let key = Key { code, modifiers, kind: KeyKind::Press };
    assert!(!impossible(app, key));
    handle_event(app, Event::Key(key))
}

fn press(app: &mut App, code: KeyCode) -> Action {
    press_with(app, code, NONE)
}

fn type_text(app: &mut App, text: &str) {
    for c in text.chars() {
        assert!(matches!(press(app, KeyCode::Char(c)), Action::Continue));
    }
}

fn app_with(names: &[&str]) -> App {
    let credentials: Vec<Credential> = names
        .iter()
        .enumerate()
        .map(|(index, name)| Credential {
            id: index as u64 + 1,
            issuer: "GitHub".to_owned(),
            name: (*name).to_owned(),
            url: "url".to_owned(),
        })
        .collect();
    App::new(Config { next_id: names.len() as u64 + 1, credentials })
}

fn names(app: &App) -> Vec<&str> {
    app.config.credentials.iter().map(|credential| credential.name.as_str()).collect()
}

fn prompt(app: &App) -> (&str, usize) {
    match &app.mode {
        Mode::Rename(input) | Mode::Add(input) => (input.value(), input.cursor()),
        _ => panic!("no prompt is open"),
    }
}

fn save(app: &mut App, action: Action) -> bool {
    match action {
        Action::Save(pending) => save_or_restore(app, pending, Ok(())),
        _ => panic!("nothing to save"),
    }
}

fn fail_to_save(app: &mut App, action: Action) -> bool {
    match action {
        Action::Save(pending) => {
            save_or_restore(app, pending, Err(StoreError::Unwritable("locked".to_owned())))
        }
        _ => panic!("nothing to save"),
    }
}

#[test]
fn the_program_ends_on_q_and_on_control_c() {
    let mut app = app_with(&["alice"]);
    assert!(matches!(press(&mut app, KeyCode::Char('q')), Action::Quit));
    assert!(matches!(press_with(&mut app, KeyCode::Char('c'), CONTROL), Action::Quit));
    assert!(matches!(press(&mut app, KeyCode::Char('c')), Action::Continue));
    press(&mut app, KeyCode::Char('n'));
    assert!(matches!(press(&mut app, KeyCode::Char('q')), Action::Continue));
    assert_eq!(prompt(&app), ("q", 1));
    assert!(matches!(press_with(&mut app, KeyCode::Char('c'), CONTROL), Action::Quit));
}

#[test]
fn a_key_that_comes_up_does_nothing() {
    let mut app = app_with(&["alice"]);
    for code in [KeyCode::Char('q'), KeyCode::Char('n'), KeyCode::Char('d')] {
        let key = Key { code, modifiers: CONTROL, kind: KeyKind::Release };
        assert!(matches!(handle_event(&mut app, Event::Key(key)), Action::Continue));
        assert!(matches!(app.mode, Mode::Normal));
    }
    assert!(matches!(handle_event(&mut app, Event::Other), Action::Continue));
    let key = Key { code: KeyCode::Char('q'), modifiers: NONE, kind: KeyKind::Repeat };
    assert!(matches!(handle_event(&mut app, Event::Key(key)), Action::Quit));
}

#[test]
fn the_selection_moves_between_the_ends() {
    let mut app = app_with(&["alice", "bob"]);
    press(&mut app, KeyCode::Up);
    assert_eq!(app.selected, 0);
    press(&mut app, KeyCode::Down);
    assert_eq!(app.selected, 1);
    press(&mut app, KeyCode::Char('j'));
    assert_eq!(app.selected, 1);
    press(&mut app, KeyCode::Char('k'));
    assert_eq!(app.selected, 0);
    assert_eq!(app.selected().unwrap().name, "alice");
    let mut empty = app_with(&[]);
    press(&mut empty, KeyCode::Char('j'));
    assert_eq!(empty.selected, 0);
    assert!(empty.selected().is_none());
}

#[test]
fn keys_that_need_a_selection_do_nothing_without_one() {
    let mut app = app_with(&[]);
    for code in [KeyCode::Enter, KeyCode::Char('d'), KeyCode::Char('r')] {
        assert!(matches!(press(&mut app, code), Action::Continue));
        assert!(matches!(app.mode, Mode::Normal));
    }
    let mut app = app_with(&["alice"]);
    assert!(matches!(press(&mut app, KeyCode::Enter), Action::CopyCode));
    assert!(matches!(press(&mut app, KeyCode::Char('s')), Action::ScanScreen));
    assert!(matches!(press(&mut app, KeyCode::Other), Action::Continue));
}

#[test]
fn a_credential_is_deleted_on_confirmation() {
    let mut app = app_with(&["alice", "bob"]);
    app.message = Some("old".to_owned());
    press(&mut app, KeyCode::Down);
    press(&mut app, KeyCode::Char('d'));
    assert!(matches!(app.mode, Mode::ConfirmDelete));
    assert!(app.message.is_none());
    press(&mut app, KeyCode::Char('x'));
    assert!(matches!(app.mode, Mode::ConfirmDelete));
    press(&mut app, KeyCode::Char('n'));
    assert!(matches!(app.mode, Mode::Normal));
    assert_eq!(names(&app), vec!["alice", "bob"]);

    press(&mut app, KeyCode::Char('d'));
    let action = press(&mut app, KeyCode::Char('Y'));
    assert!(matches!(app.mode, Mode::Normal));
    assert_eq!(names(&app), vec!["alice"]);
    assert_eq!(app.selected, 0);
    assert!(save(&mut app, action));
    assert_eq!(app.message.as_deref(), Some("Deleted GitHub: bob"));
    assert_eq!(app.config.next_id, 3);
}

#[test]
fn a_deletion_that_is_not_saved_is_undone() {
    let mut app = app_with(&["alice", "bob"]);
    press(&mut app, KeyCode::Char('d'));
    let action = press(&mut app, KeyCode::Char('y'));
    assert_eq!(names(&app), vec!["bob"]);
    assert!(!fail_to_save(&mut app, action));
    assert_eq!(names(&app), vec!["alice", "bob"]);
    assert_eq!(
        app.message.as_deref(),
        Some("Save failed: Failed to save config to keyring: locked")
    );
    assert!(matches!(app.mode, Mode::Normal));
}

#[test]
fn a_credential_is_renamed() {
    let mut app = app_with(&["alice", "bob"]);
    press(&mut app, KeyCode::Char('r'));
    assert_eq!(prompt(&app), ("alice", 5));
    type_text(&mut app, " b.  ");
    let action = press(&mut app, KeyCode::Enter);
    assert!(matches!(app.mode, Mode::Rename(_)));
    assert!(save(&mut app, action));
    assert_eq!(names(&app), vec!["alice b.", "bob"]);
    assert_eq!(app.config.credentials[0].id, 1);
    assert!(matches!(app.mode, Mode::Normal));
    assert_eq!(app.message.as_deref(), Some("Credential renamed"));
}

#[test]
fn a_new_name_must_not_be_empty() {
    let mut app = app_with(&["alice"]);
    press(&mut app, KeyCode::Char('r'));
    press_with(&mut app, KeyCode::Char('u'), CONTROL);
    assert_eq!(prompt(&app), ("", 0));
    type_text(&mut app, "  ");
    assert!(matches!(press(&mut app, KeyCode::Enter), Action::Continue));
    assert_eq!(app.message.as_deref(), Some("Display name cannot be empty"));
    assert_eq!(prompt(&app), ("  ", 2));
    press(&mut app, KeyCode::Esc);
    assert!(matches!(app.mode, Mode::Normal));
    assert!(app.message.is_none());
    assert_eq!(names(&app), vec!["alice"]);
}

#[test]
fn a_new_name_that_is_not_saved_stays_in_the_prompt() {
    let mut app = app_with(&["alice"]);
    press(&mut app, KeyCode::Char('r'));
    type_text(&mut app, "x");
    let action = press(&mut app, KeyCode::Enter);
    assert_eq!(names(&app), vec!["alicex"]);
    assert!(!fail_to_save(&mut app, action));
    assert_eq!(names(&app), vec!["alice"]);
    assert_eq!(prompt(&app), ("alicex", 6));
}

#[test]
fn the_prompt_is_edited() {
    let mut app = app_with(&[]);
    press(&mut app, KeyCode::Char('n'));
    type_text(&mut app, "one two");
    press(&mut app, KeyCode::Left);
    assert_eq!(prompt(&app), ("one two", 6));
    press(&mut app, KeyCode::Backspace);
    assert_eq!(prompt(&app), ("one to", 5));
    press_with(&mut app, KeyCode::Char('A'), Modifiers { shift: true, ..NONE });
    assert_eq!(prompt(&app), ("one tAo", 6));
    press(&mut app, KeyCode::Home);
    press(&mut app, KeyCode::Delete);
    assert_eq!(prompt(&app), ("ne tAo", 0));
    press(&mut app, KeyCode::End);
    press_with(&mut app, KeyCode::Char('w'), CONTROL);
    assert_eq!(prompt(&app), ("ne ", 3));
    press_with(&mut app, KeyCode::Char('y'), CONTROL);
    assert_eq!(prompt(&app), ("ne tAo", 6));
    press_with(&mut app, KeyCode::Char('z'), Modifiers { alt: true, ..NONE });
    press(&mut app, KeyCode::Up);
    press(&mut app, KeyCode::Other);
    assert_eq!(prompt(&app), ("ne tAo", 6));
    press_with(&mut app, KeyCode::Char('b'), Modifiers { meta: true, ..NONE });
    assert_eq!(prompt(&app), ("ne tAo", 3));
    press_with(&mut app, KeyCode::Char('ä'), Modifiers { alt: true, ..CONTROL });
    assert_eq!(prompt(&app), ("ne ätAo", 4));
}

#[test]
fn pasted_text_goes_into_the_prompt_at_the_cursor() {
    let mut app = app_with(&["alice"]);
    handle_event(&mut app, Event::Paste("lost".to_owned()));
    assert!(matches!(app.mode, Mode::Normal));
    press(&mut app, KeyCode::Char('n'));
    handle_event(&mut app, Event::Paste(" ab\n".to_owned()));
    press(&mut app, KeyCode::Left);
    handle_event(&mut app, Event::Paste("\tä ö ".to_owned()));
    assert_eq!(prompt(&app), ("aä öb", 4));
    handle_event(&mut app, Event::Paste("   ".to_owned()));
    assert_eq!(prompt(&app), ("aä öb", 4));
    press(&mut app, KeyCode::Esc);
    press(&mut app, KeyCode::Char('r'));
    handle_event(&mut app, Event::Paste("!".to_owned()));
    assert_eq!(prompt(&app), ("alice!", 6));
}

#[test]
fn a_url_is_added() {
    let mut app = app_with(&["alice", "bob"]);
    press(&mut app, KeyCode::Char('n'));
    handle_event(&mut app, Event::Paste(URL.to_owned()));
    let action = press(&mut app, KeyCode::Enter);
    assert!(matches!(app.mode, Mode::Add(_)));
    assert_eq!(names(&app), vec!["alice", "bob", "carol"]);
    assert_eq!(app.selected, 2);
    assert!(save(&mut app, action));
    assert!(matches!(app.mode, Mode::Normal));
    assert_eq!(app.message.as_deref(), Some("Added 1 credential(s)"));
    assert_eq!(app.config.credentials[2].id, 3);
    assert_eq!(app.config.credentials[2].url, URL);
}

#[test]
fn a_url_that_is_not_saved_stays_in_the_prompt() {
    let mut app = app_with(&["alice"]);
    press(&mut app, KeyCode::Char('n'));
    handle_event(&mut app, Event::Paste(URL.to_owned()));
    let action = press(&mut app, KeyCode::Enter);
    assert_eq!(app.config.next_id, 3);
    assert!(!fail_to_save(&mut app, action));
    assert_eq!(names(&app), vec!["alice"]);
    assert_eq!(app.config.next_id, 2);
    assert_eq!(app.selected, 0);
    assert_eq!(prompt(&app).0, URL);
}

#[test]
fn a_source_that_yields_nothing_is_told() {
    let mut app = app_with(&[]);
    press(&mut app, KeyCode::Char('n'));
    assert!(matches!(press(&mut app, KeyCode::Enter), Action::Continue));
    assert_eq!(app.message.as_deref(), Some("Enter a URL or image path"));
    type_text(&mut app, "otpauth://hotp/x");
    assert!(app.message.is_none());
    assert!(matches!(press(&mut app, KeyCode::Enter), Action::Continue));
    assert_eq!(
        app.message.as_deref(),
        Some("Add failed: Error parsing otpauth URL: Host must be \"totp\", not \"hotp\"")
    );
    assert_eq!(prompt(&app).0, "otpauth://hotp/x");
}

#[test]
fn an_image_is_read_and_added() {
    let mut app = app_with(&[]);
    press(&mut app, KeyCode::Char('n'));
    type_text(&mut app, " ~/qr.png ");
    match press(&mut app, KeyCode::Enter) {
        Action::ReadImage(path) => assert_eq!(path, "~/qr.png"),
        _ => panic!("the image was not asked for"),
    }
    assert!(matches!(image_read(&mut app, Err(FileError::NoHome)), Action::Continue));
    assert_eq!(app.message.as_deref(), Some("Add failed: Home directory not found"));
    assert!(matches!(image_read(&mut app, Ok("hello".to_owned())), Action::Continue));
    assert!(app.message.as_deref().unwrap().starts_with("Add failed: Error parsing otpauth URL: "));
    let action = image_read(&mut app, Ok(format!("{URL}\n")));
    assert!(save(&mut app, action));
    assert_eq!(names(&app), vec!["carol"]);
    assert!(matches!(app.mode, Mode::Normal));
}

#[test]
fn a_scan_adds_what_it_found() {
    let mut app = app_with(&["alice"]);
    let found = vec![NewCredential {
        issuer: "GitHub".to_owned(),
        name: "carol".to_owned(),
        url: URL.to_owned(),
    }];
    let action = screen_scanned(&mut app, Ok(found));
    assert!(save(&mut app, action));
    assert_eq!(names(&app), vec!["alice", "carol"]);
    assert_eq!(app.selected, 1);
    assert!(matches!(screen_scanned(&mut app, Ok(Vec::new())), Action::Continue));
    assert_eq!(app.message.as_deref(), Some("No credentials found"));
    assert!(matches!(screen_scanned(&mut app, Err(ScanError::NoQrCode)), Action::Continue));
    assert_eq!(
        app.message.as_deref(),
        Some("Screen scan failed: No QR code found on any display")
    );
    app.config.next_id = u64::MAX;
    let found = vec![NewCredential {
        issuer: "I".to_owned(),
        name: "n".to_owned(),
        url: "u".to_owned(),
    }];
    assert!(matches!(screen_scanned(&mut app, Ok(found)), Action::Continue));
    assert_eq!(app.message.as_deref(), Some("Credential ID limit reached"));
    assert_eq!(names(&app), vec!["alice", "carol"]);
}

#[test]
fn a_path_is_completed_in_the_prompt() {
    let listing = || {
        vec![
            DirectoryEntry { name: "qr2.png".to_owned(), is_directory: false },
            DirectoryEntry { name: "qr1.png".to_owned(), is_directory: false },
        ]
    };
    let mut app = app_with(&[]);
    press(&mut app, KeyCode::Char('n'));
    type_text(&mut app, "~/q");
    let (query, backwards) = match press(&mut app, KeyCode::BackTab) {
        Action::ListDirectory { query, backwards } => (query, backwards),
        _ => panic!("no directory was asked for"),
    };
    assert_eq!(query.directory, "~");
    assert!(backwards);
    let unlistable =
        FileError::Unlistable { path: "/home/me".to_owned(), cause: "denied".to_owned() };
    directory_listed(&mut app, &query, backwards, Err(unlistable));
    assert_eq!(
        app.message.as_deref(),
        Some("Path completion failed: Failed to read directory /home/me: denied")
    );
    directory_listed(&mut app, &query, backwards, Ok(Vec::new()));
    assert_eq!(app.message.as_deref(), Some("No path matches"));
    directory_listed(&mut app, &query, backwards, Ok(listing()));
    assert_eq!(prompt(&app), ("~/qr2.png", 9));
    assert_eq!(app.message.as_deref(), Some("Path match 2/2"));
    assert!(matches!(press(&mut app, KeyCode::Tab), Action::Continue));
    assert_eq!(prompt(&app), ("~/qr1.png", 9));
    assert_eq!(app.message.as_deref(), Some("Path match 1/2"));
    type_text(&mut app, "x");
    assert!(app.path_completion.is_none());
    press(&mut app, KeyCode::Esc);
    directory_listed(&mut app, &query, backwards, Ok(listing()));
    assert!(matches!(app.mode, Mode::Normal));
    assert!(app.message.is_none());
}

#[test]
fn a_url_in_the_prompt_is_not_completed() {
    let mut app = app_with(&[]);
    press(&mut app, KeyCode::Char('n'));
    type_text(&mut app, "otpauth://");
    assert!(matches!(press(&mut app, KeyCode::Tab), Action::Continue));
    assert_eq!(app.message.as_deref(), Some("No path matches"));
}

#[test]
fn an_impossible_completion_is_found_out() {
    let mut app = app_with(&[]);
    let tab = Key { code: KeyCode::Tab, modifiers: NONE, kind: KeyKind::Press };
    assert!(!impossible(&app, tab));
    press(&mut app, KeyCode::Char('n'));
    type_text(&mut app, "aéb/.");
    assert!(impossible(&app, tab));
    assert!(impossible(&app, Key { code: KeyCode::BackTab, ..tab }));
    assert!(!impossible(&app, Key { kind: KeyKind::Release, ..tab }));
    assert!(!impossible(&app, Key { code: KeyCode::Enter, ..tab }));
    type_text(&mut app, "/");
    assert!(!impossible(&app, tab));
}
