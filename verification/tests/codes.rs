use otpc::app::App;
use otpc::codes::{
    checked_credential_code, checked_current_code, credential_code, current_code, describe_code,
};
use otpc::config::{Config, Credential};
use otpc::outcomes::{code_copied, copy_selected_code, CopyError};
use totp_rs::Totp;

/// A credential whose code does not change within the run of a test.
const STABLE_URL: &str =
    "otpauth://totp/GitHub:alice?secret=KRSXG5CTMVRXEZLUKN2XAZLSKNSWG4TFOQ&issuer=GitHub&period=1000000000000";

fn credential(url: &str) -> Credential {
    Credential { id: 1, issuer: "GitHub".to_owned(), name: "alice".to_owned(), url: url.to_owned() }
}

fn app_with(url: &str) -> App {
    App::new(Config { next_id: 2, credentials: vec![credential(url)] })
}

#[test]
fn the_current_code_is_that_of_the_url() {
    let totp = Totp::from_url_unchecked(STABLE_URL).unwrap();
    let (code, seconds) = current_code(&credential(STABLE_URL)).unwrap();
    assert_eq!(code, totp.generate_current().to_string());
    assert_eq!(code, totp.generate(1).to_string());
    assert_eq!(code.len(), 6);
    assert!(seconds >= totp.ttl());
    assert!(seconds - totp.ttl() <= 20);
    assert_eq!(checked_current_code(&credential(STABLE_URL)).unwrap().unwrap().0, code);
}

#[test]
fn the_row_of_a_credential_shows_code_and_time() {
    let code = Totp::from_url_unchecked(STABLE_URL).unwrap().generate_current().to_string();
    let row = credential_code(&credential(STABLE_URL));
    assert!(row.starts_with(&format!("{code} TTL: ")));
    assert!(row.ends_with('s'));
    assert!(checked_credential_code(&credential(STABLE_URL)).unwrap().starts_with(&code));
    assert_eq!(describe_code(&Ok(("012345".to_owned(), 30))), "012345 TTL: 30s");
    assert_eq!(describe_code(&Err("why".to_owned())), "Invalid credential URL");
}

#[test]
fn an_unreadable_url_has_no_code() {
    let broken = credential("otpauth://hotp/x");
    assert_eq!(
        current_code(&broken).unwrap_err(),
        "Invalid credential URL: Host must be \"totp\", not \"hotp\""
    );
    assert_eq!(credential_code(&broken), "Invalid credential URL");
    assert_eq!(checked_credential_code(&broken), Some("Invalid credential URL".to_owned()));
}

#[test]
fn a_code_that_cannot_be_computed_is_found_out() {
    for parameter in ["digits=10", "digits=255", "period=0"] {
        let url = format!("otpauth://totp/A:a?secret=JBSWY3DPEHPK3PXP&issuer=A&{parameter}");
        assert!(checked_current_code(&credential(&url)).is_none());
        assert!(checked_credential_code(&credential(&url)).is_none());
        assert!(copy_selected_code(&app_with(&url)).is_none());
    }
    for (parameter, length) in [("digits=9", 9), ("digits=1", 1), ("digits=0", 1), ("period=1", 6)] {
        let url = format!("otpauth://totp/A:a?secret=JBSWY3DPEHPK3PXP&issuer=A&{parameter}");
        let (code, seconds) = checked_current_code(&credential(&url)).unwrap().unwrap();
        assert_eq!(code.len(), length);
        assert!(code.chars().all(|c| c.is_ascii_digit()));
        assert!(seconds >= 1);
    }
}

#[test]
fn the_code_of_the_selection_is_copied() {
    let mut app = app_with(STABLE_URL);
    let code = copy_selected_code(&app).unwrap().unwrap();
    assert_eq!(code, Totp::from_url_unchecked(STABLE_URL).unwrap().generate_current().to_string());
    code_copied(&mut app, Ok(()));
    assert_eq!(app.message.as_deref(), Some("Code copied"));
}

#[test]
fn a_failed_copy_is_told() {
    let mut app = App::new(Config::default());
    let error = copy_selected_code(&app).unwrap().unwrap_err();
    assert!(matches!(error, CopyError::NoSelection));
    code_copied(&mut app, Err(error));
    assert_eq!(app.message.as_deref(), Some("Copy failed: No credential selected"));

    let mut app = app_with("otpauth://hotp/x");
    let error = copy_selected_code(&app).unwrap().unwrap_err();
    code_copied(&mut app, Err(error));
    assert_eq!(
        app.message.as_deref(),
        Some("Copy failed: Invalid credential URL: Host must be \"totp\", not \"hotp\"")
    );

    code_copied(&mut app, Err(CopyError::NoClipboard("no display".to_owned())));
    assert_eq!(
        app.message.as_deref(),
        Some("Copy failed: Failed to access clipboard: no display")
    );
    code_copied(&mut app, Err(CopyError::NotTaken("busy".to_owned())));
    assert_eq!(app.message.as_deref(), Some("Copy failed: Failed to copy code: busy"));
}
