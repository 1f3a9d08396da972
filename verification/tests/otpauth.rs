use otpc::otpauth::{
    account_to_otpauth_url, credential_from_parsed, credentials_from_accounts, credentials_from_url,
    names_credentials, Account, CredentialError, OtpauthUrl,
};

const MIGRATION_URL: &str = "otpauth-migration://offline?data=CjMKCkhlbGxvId6tvu8SGFRlc3QxOnRlc3QxQGV4YW1wbGUxLmNvbRoFVGVzdDEgASgBMAIKMwoKSGVsbG8h3q2%2B8BIYVGVzdDI6dGVzdDJAZXhhbXBsZTIuY29tGgVUZXN0MiABKAEwAgozCgpIZWxsbyHerb7xEhhUZXN0Mzp0ZXN0M0BleGFtcGxlMy5jb20aBVRlc3QzIAEoATACEAEYASAAKI3orYEE";

fn account(issuer: &str, name: &str, secret: &str) -> Account {
    Account { name: name.to_owned(), secret: secret.to_owned(), issuer: issuer.to_owned() }
}

#[test]
fn parses_an_otpauth_credential() {
    let url = "otpauth://totp/GitHub:user%40example.com?secret=KRSXG5CTMVRXEZLUKN2XAZLSKNSWG4TFOQ&issuer=GitHub";
    let credentials = credentials_from_url(url).unwrap();

    assert_eq!(credentials.len(), 1);
    assert_eq!(credentials[0].issuer, "GitHub");
    assert_eq!(credentials[0].name, "user@example.com");
    assert_eq!(credentials[0].url, url);
}

#[test]
fn an_account_becomes_a_percent_encoded_url() {
    assert_eq!(
        account_to_otpauth_url(&account("Große Firma", "a:b~c@x.y_z-1/2", "ABC")),
        "otpauth://totp/Gro%C3%9Fe%20Firma:a%3Ab~c%40x.y_z-1%2F2?secret=ABC&issuer=Gro%C3%9Fe%20Firma"
    );
}

#[test]
fn an_account_survives_the_way_through_its_url() {
    let texts = [
        "GitHub", "user@example.com", "Große Firma", "..", ".", "%3A", "100%", "a+b&c=d#e?f/g\\h",
        " x ", "\t\n", "日本語", "~", "//", "%2e%2e", "C",
    ];
    for secret in ["JBSWY3DPEHPK3PXP", "A", "234567", ""] {
        for issuer in texts.iter().chain(&[""]) {
            for name in texts.iter().chain(&[":", "a:b"]) {
                let url = account_to_otpauth_url(&account(issuer, name, secret));
                let credentials = credentials_from_url(&url).unwrap();
                assert_eq!(credentials.len(), 1);
                assert_eq!(credentials[0].issuer, *issuer);
                assert_eq!(credentials[0].name, *name);
                assert_eq!(credentials[0].url, url);
            }
        }
    }
}

#[test]
fn the_url_of_an_account_asks_for_six_digits_and_thirty_seconds() {
    let url = account_to_otpauth_url(&account("A", "a", "JBSWY3DPEHPK3PXP"));
    let totp = totp_rs::Totp::from_url_unchecked(&url).unwrap();
    assert_eq!((totp.digits(), totp.step()), (6, 30));
}

#[test]
fn an_account_with_a_colon_in_its_issuer_is_not_read_back() {
    let url = account_to_otpauth_url(&account("a:b", "c", "JBSWY3DPEHPK3PXP"));
    assert!(matches!(credentials_from_url(&url), Err(CredentialError::BadOtpauthUrl(_))));
    let url = account_to_otpauth_url(&account("A", "a", "no base32"));
    assert!(matches!(credentials_from_url(&url), Err(CredentialError::BadOtpauthUrl(_))));
}

#[test]
fn a_migration_url_yields_all_its_accounts() {
    let credentials = credentials_from_url(MIGRATION_URL).unwrap();
    assert_eq!(credentials.len(), 3);
    assert_eq!(credentials[0].issuer, "Test1");
    assert_eq!(credentials[0].name, "Test1:test1@example1.com");
    assert_eq!(
        credentials[0].url,
        "otpauth://totp/Test1:Test1%3Atest1%40example1.com?secret=JBSWY3DPEHPK3PXP&issuer=Test1"
    );
    assert_eq!(credentials[1].issuer, "Test2");
    assert_eq!(credentials[2].name, "Test3:test3@example3.com");
}

#[test]
fn an_account_without_an_issuer_is_called_by_its_name() {
    let credentials =
        credentials_from_url("otpauth-migration://offline?data=ChMKCkhlbGxvId6tvu8SBWFsaWNl").unwrap();
    assert_eq!(credentials.len(), 1);
    assert_eq!(credentials[0].issuer, "alice");
    assert_eq!(credentials[0].name, "alice");
}

#[test]
fn an_account_without_issuer_and_name_is_an_error() {
    let error =
        credentials_from_url("otpauth-migration://offline?data=CgwKCkhlbGxvId6tvu8%3D").unwrap_err();
    assert!(matches!(error, CredentialError::AccountWithoutIssuer));
    assert_eq!(error.message(), "TOTP account is missing an issuer");
}

#[test]
fn one_account_without_an_issuer_spoils_them_all() {
    let error =
        credentials_from_accounts(vec![account("A", "a", "S"), account("", "b", "S")]).unwrap_err();
    assert!(matches!(error, CredentialError::AccountWithoutIssuer));
    assert_eq!(credentials_from_accounts(Vec::new()).unwrap().len(), 0);
    let credentials = credentials_from_accounts(vec![account("A", "a", "S")]).unwrap();
    assert_eq!(credentials[0].url, "otpauth://totp/A:a?secret=S&issuer=A");
}

#[test]
fn an_unreadable_migration_url_is_an_error() {
    for url in ["otpauth-migration://offline", "otpauth-migration://offline?data=%21%21"] {
        let error = credentials_from_url(url).unwrap_err();
        assert!(matches!(error, CredentialError::BadMigrationUrl));
        assert_eq!(error.message(), "Error parsing otpauth-migration URL");
    }
}

#[test]
fn an_unreadable_otpauth_url_is_an_error() {
    let error = credentials_from_url("otpauth://hotp/A:a?secret=JBSWY3DPEHPK3PXP").unwrap_err();
    assert_eq!(
        error.message(),
        "Error parsing otpauth URL: Host must be \"totp\", not \"hotp\""
    );
    let error = credentials_from_url("http://totp/A:a?secret=JBSWY3DPEHPK3PXP").unwrap_err();
    assert_eq!(
        error.message(),
        "Error parsing otpauth URL: Scheme must be \"otpauth\", not \"http\""
    );
    assert!(matches!(
        credentials_from_url("no url").unwrap_err(),
        CredentialError::BadOtpauthUrl(_)
    ));
}

#[test]
fn a_url_without_an_issuer_is_an_error() {
    let error = credentials_from_url("otpauth://totp/alice?secret=JBSWY3DPEHPK3PXP").unwrap_err();
    assert!(matches!(error, CredentialError::UrlWithoutIssuer));
    assert_eq!(error.message(), "TOTP URL is missing an issuer");
}

#[test]
fn a_url_without_an_account_name_is_an_error() {
    let error =
        credentials_from_url("otpauth://totp/?secret=JBSWY3DPEHPK3PXP&issuer=GitHub").unwrap_err();
    assert!(matches!(error, CredentialError::UrlWithoutAccountName));
    assert_eq!(error.message(), "TOTP URL is missing an account name");
}

#[test]
fn what_a_url_was_read_as_decides() {
    let parsed = |issuer: Option<&str>, name: &str| {
        Ok(OtpauthUrl {
            issuer: issuer.map(str::to_owned),
            account_name: name.to_owned(),
            digits: 6,
            step: 30,
        })
    };
    let credential = credential_from_parsed("url", parsed(Some("I"), "n")).unwrap();
    assert_eq!(
        (credential.issuer.as_str(), credential.name.as_str(), credential.url.as_str()),
        ("I", "n", "url")
    );
    assert_eq!(credential_from_parsed("url", parsed(Some(""), "n")).unwrap().issuer, "");
    assert!(matches!(
        credential_from_parsed("url", parsed(None, "")),
        Err(CredentialError::UrlWithoutIssuer)
    ));
    assert!(matches!(
        credential_from_parsed("url", parsed(Some("I"), "")),
        Err(CredentialError::UrlWithoutAccountName)
    ));
    assert_eq!(
        credential_from_parsed("url", Err("cause".to_owned())).unwrap_err().message(),
        "Error parsing otpauth URL: cause"
    );
}

#[test]
fn urls_that_name_credentials_are_told_apart() {
    assert!(names_credentials("otpauth://x"));
    assert!(names_credentials("otpauth-migration://x"));
    assert!(!names_credentials("otpauth:/x"));
    assert!(!names_credentials(" otpauth://x"));
    assert!(!names_credentials("~/qr.png"));
}
