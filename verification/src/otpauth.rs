//! Credentials out of `otpauth` and `otpauth-migration` URLs.
use crate::config::{views, NewCredential, NewCredentialView};
use crate::text::starts_with;
use totp_rs::Totp;
use vstd::prelude::*;
use vstd::string::StringExecFns;
use vstd::utf8::encode_utf8;

verus! {

/// An account out of a migration URL.
#[derive(Debug)]
pub struct Account {
    pub name: String,
    pub secret: String,
    pub issuer: String,
}

/// An account out of a migration URL, as a value.
#[verifier::ext_equal]
pub struct AccountView {
    pub name: Seq<char>,
    pub secret: Seq<char>,
    pub issuer: Seq<char>,
}

impl View for Account {
    type V = AccountView;

    open spec fn view(&self) -> AccountView {
        AccountView { name: self.name@, secret: self.secret@, issuer: self.issuer@ }
    }
}

/// What an `otpauth` URL says.
#[derive(Debug)]
pub struct OtpauthUrl {
    pub issuer: Option<String>,
    pub account_name: String,
    pub digits: u8,
    pub step: u64,
}

/// What an `otpauth` URL says, as a value.
#[verifier::ext_equal]
pub struct OtpauthView {
    pub issuer: Option<Seq<char>>,
    pub account_name: Seq<char>,
    pub digits: u8,
    pub step: u64,
}

impl View for OtpauthUrl {
    type V = OtpauthView;

    open spec fn view(&self) -> OtpauthView {
        OtpauthView {
            issuer: match self.issuer {
                Some(issuer) => Some(issuer@),
                None => None,
            },
            account_name: self.account_name@,
            digits: self.digits,
            step: self.step,
        }
    }
}

/// Why a URL yields no credentials.
#[derive(Debug)]
pub enum CredentialError {
    /// The migration URL cannot be read.
    BadMigrationUrl,
    /// An account of the migration URL has no issuer.
    AccountWithoutIssuer,
    /// The `otpauth` URL cannot be read, for the given reason.
    BadOtpauthUrl(String),
    /// The `otpauth` URL names no issuer.
    UrlWithoutIssuer,
    /// The `otpauth` URL names no account.
    UrlWithoutAccountName,
}

/// Why a URL yields no credentials, as a value.
#[verifier::ext_equal]
pub enum CredentialErrorView {
    BadMigrationUrl,
    AccountWithoutIssuer,
    BadOtpauthUrl(Seq<char>),
    UrlWithoutIssuer,
    UrlWithoutAccountName,
}

impl View for CredentialError {
    type V = CredentialErrorView;

    open spec fn view(&self) -> CredentialErrorView {
        match self {
            CredentialError::BadMigrationUrl => CredentialErrorView::BadMigrationUrl,
            CredentialError::AccountWithoutIssuer => CredentialErrorView::AccountWithoutIssuer,
            CredentialError::BadOtpauthUrl(cause) => CredentialErrorView::BadOtpauthUrl(cause@),
            CredentialError::UrlWithoutIssuer => CredentialErrorView::UrlWithoutIssuer,
            CredentialError::UrlWithoutAccountName => CredentialErrorView::UrlWithoutAccountName,
        }
    }
}

impl CredentialErrorView {
    /// What the user is told.
    pub open spec fn text(self) -> Seq<char> {
        match self {
            CredentialErrorView::BadMigrationUrl => "Error parsing otpauth-migration URL"@,
            CredentialErrorView::AccountWithoutIssuer => "TOTP account is missing an issuer"@,
            CredentialErrorView::BadOtpauthUrl(cause) => "Error parsing otpauth URL: "@ + cause,
            CredentialErrorView::UrlWithoutIssuer => "TOTP URL is missing an issuer"@,
            CredentialErrorView::UrlWithoutAccountName => "TOTP URL is missing an account name"@,
        }
    }
}

impl CredentialError {
    /// What the user is told.
    pub fn message(&self) -> (text: String)
        ensures
            text@ == self@.text(),
    {
        match self {
            CredentialError::BadMigrationUrl => "Error parsing otpauth-migration URL".to_owned(),
            CredentialError::AccountWithoutIssuer => "TOTP account is missing an issuer".to_owned(),
            CredentialError::BadOtpauthUrl(cause) => {
                let mut text = "Error parsing otpauth URL: ".to_owned();
                text.append(cause.as_str());
                text
            },
            CredentialError::UrlWithoutIssuer => "TOTP URL is missing an issuer".to_owned(),
            CredentialError::UrlWithoutAccountName => {
                "TOTP URL is missing an account name".to_owned()
            },
        }
    }
}

/// Credentials, or why there are none, as a value.
pub open spec fn outcome(
    credentials: Result<Vec<NewCredential>, CredentialError>,
) -> Result<Seq<NewCredentialView>, CredentialErrorView> {
    match credentials {
        Ok(credentials) => Ok(views(credentials@)),
        Err(error) => Err(error@),
    }
}

/// A byte that stands for itself in a percent-encoded text: a letter, a digit, `-`, `.`, `_` or
/// `~`.
pub open spec fn is_unreserved(byte: u8) -> bool {
    ||| '0' as u8 <= byte <= '9' as u8
    ||| 'A' as u8 <= byte <= 'Z' as u8
    ||| 'a' as u8 <= byte <= 'z' as u8
    ||| byte == '-' as u8
    ||| byte == '.' as u8
    ||| byte == '_' as u8
    ||| byte == '~' as u8
}

/// The upper-case hexadecimal digit of `value`.
pub open spec fn hex_digit(value: int) -> char {
    if value < 10 {
        ('0' as int + value) as char
    } else {
        ('A' as int + value - 10) as char
    }
}

/// A byte, percent-encoded.
pub open spec fn percent_encoded_byte(byte: u8) -> Seq<char> {
    if is_unreserved(byte) {
        seq![byte as char]
    } else {
        seq!['%', hex_digit(byte as int / 16), hex_digit(byte as int % 16)]
    }
}

/// Bytes, percent-encoded one by one.
pub open spec fn percent_encoded(bytes: Seq<u8>) -> Seq<char>
    decreases bytes.len(),
{
    if bytes.len() == 0 {
        Seq::empty()
    } else {
        percent_encoded(bytes.drop_last()) + percent_encoded_byte(bytes.last())
    }
}

/// `urlencoding::encode`: percent-encodes the UTF-8 bytes of a text, all but letters, digits,
/// `-`, `.`, `_` and `~`.
#[verifier::external_body]
fn percent_encode(text: &str) -> (encoded: String)
    ensures
        encoded@ == percent_encoded(encode_utf8(text@)),
{
    urlencoding::encode(text).into_owned()
}

/// The accounts that `google_authenticator_converter::process_data` finds in a migration URL, or
/// nothing where it cannot read the URL: the payload is percent-encoded, then base64, then a
/// protocol buffer.
pub uninterp spec fn migration_accounts(url: Seq<char>) -> Option<Seq<AccountView>>;

/// `google_authenticator_converter::process_data`: the accounts that `migration_accounts` names,
/// in the order of the payload. An account without an issuer of its own gets its name as one.
#[verifier::external_body]
fn accounts_in(url: &str) -> (accounts: Option<Vec<Account>>)
    ensures
        accounts is Some == migration_accounts(url@) is Some,
        accounts matches Some(list) ==> views(list@) == migration_accounts(url@).unwrap(),
{
    let accounts = google_authenticator_converter::process_data(url).ok()?.into_iter();
    Some(
        accounts.map(|a| Account { name: a.name, secret: a.secret, issuer: a.issuer }).collect(),
    )
}

/// The `otpauth` URL of a migrated account.
pub open spec fn account_url(account: AccountView) -> Seq<char> {
    let issuer = percent_encoded(encode_utf8(account.issuer));
    let name = percent_encoded(encode_utf8(account.name));
    "otpauth://totp/"@ + issuer + ":"@ + name + "?secret="@ + account.secret + "&issuer="@ + issuer
}

/// Whether a text is written in the alphabet of base32, without padding.
pub open spec fn is_base32(text: Seq<char>) -> bool {
    forall|i: int|
        0 <= i < text.len() ==> 'A' <= #[trigger] text[i] <= 'Z' || '2' <= text[i] <= '7'
}

/// Whether the URL of an account can be read back: a colon ends the issuer, the secret is base32,
/// and places in a URL are 32-bit numbers.
pub open spec fn reads_back(account: AccountView) -> bool {
    &&& !account.issuer.contains(':')
    &&& is_base32(account.secret)
    &&& account_url(account).len() <= u32::MAX
}

/// What the URL of an account says: six digits and thirty seconds are what a URL means that asks
/// for nothing else.
pub open spec fn account_reading(account: AccountView) -> OtpauthView {
    OtpauthView {
        issuer: Some(account.issuer),
        account_name: account.name,
        digits: 6,
        step: 30,
    }
}

/// What `Totp::from_url_unchecked` of `totp_rs` makes of a URL, or the text of its error with
/// that error's causes.
pub uninterp spec fn otpauth_url(url: Seq<char>) -> Result<OtpauthView, Seq<char>>;

/// What a URL was read as, as a value.
pub open spec fn reading(parsed: Result<OtpauthUrl, String>) -> Result<OtpauthView, Seq<char>> {
    match parsed {
        Ok(parsed) => Ok(parsed@),
        Err(cause) => Err(cause@),
    }
}

/// `Totp::from_url_unchecked`: what `otpauth_url` names, read off the `Totp` through its
/// getters. An error comes as text, each cause behind a colon, as `anyhow` writes it. A URL that
/// was made of an account is read as it was made: the issuer and the name stand percent-encoded
/// on both sides of the first colon of the path, the issuer once more in the query, and each is
/// decoded once.
#[verifier::external_body]
pub(crate) fn parse_otpauth_url(url: &str) -> (parsed: Result<OtpauthUrl, String>)
    ensures
        reading(parsed) == otpauth_url(url@),
        forall|account: AccountView|
            reads_back(account) ==> url@ == #[trigger] account_url(account) ==> reading(parsed)
                == (Ok::<_, Seq<char>>(account_reading(account))),
{
    match Totp::from_url_unchecked(url) {
        Ok(totp) => Ok(
            OtpauthUrl {
                issuer: totp.issuer().map(str::to_owned),
                account_name: totp.account_name().to_owned(),
                digits: totp.digits(),
                step: totp.step(),
            },
        ),
        Err(error) => Err(format!("{:#}", anyhow::Error::new(error))),
    }
}

/// The `otpauth` URL of a migrated account.
pub fn account_to_otpauth_url(account: &Account) -> (url: String)
    ensures
        url@ == account_url(account@),
{
    let issuer = percent_encode(account.issuer.as_str());
    let name = percent_encode(account.name.as_str());
    let mut url = "otpauth://totp/".to_owned();
    url.append(issuer.as_str());
    url.append(":");
    url.append(name.as_str());
    url.append("?secret=");
    url.append(account.secret.as_str());
    url.append("&issuer=");
    url.append(issuer.as_str());
    url
}

/// The credential of a migrated account.
pub open spec fn account_credential(account: AccountView) -> NewCredentialView {
    NewCredentialView { issuer: account.issuer, name: account.name, url: account_url(account) }
}

/// The credentials of migrated accounts: all of them, or none where one has no issuer.
pub open spec fn migrated(accounts: Seq<AccountView>) -> Result<
    Seq<NewCredentialView>,
    CredentialErrorView,
> {
    if exists|i: int| 0 <= i < accounts.len() && (#[trigger] accounts[i]).issuer.len() == 0 {
        Err(CredentialErrorView::AccountWithoutIssuer)
    } else {
        Ok(accounts.map_values(|account: AccountView| account_credential(account)))
    }
}

/// The credentials of migrated accounts.
pub fn credentials_from_accounts(accounts: Vec<Account>) -> (credentials: Result<
    Vec<NewCredential>,
    CredentialError,
>)
    ensures
        outcome(credentials) == migrated(views(accounts@)),
{
    let ghost all = views(accounts@);
    let mut credentials: Vec<NewCredential> = Vec::new();
    for account in iter: accounts
        invariant
            all == views(iter.seq()),
            credentials.len() == iter.index(),
            forall|i: int| 0 <= i < iter.index() ==> (#[trigger] all[i]).issuer.len() > 0,
            forall|i: int|
                0 <= i < iter.index() ==> (#[trigger] credentials@[i])@ == account_credential(
                    all[i],
                ),
    {
        assert(all[iter.index()] == account@);
        if account.issuer.as_str().is_empty() {
            return Err(CredentialError::AccountWithoutIssuer);
        }
        let url = account_to_otpauth_url(&account);
        credentials.push(NewCredential { issuer: account.issuer, name: account.name, url });
    }
    assert(views(credentials@) == all.map_values(
        |account: AccountView| account_credential(account),
    ));
    Ok(credentials)
}

/// The credential of an `otpauth` URL that was read as `parsed`.
pub open spec fn parsed_credential(
    url: Seq<char>,
    parsed: Result<OtpauthView, Seq<char>>,
) -> Result<NewCredentialView, CredentialErrorView> {
    match parsed {
        Err(cause) => Err(CredentialErrorView::BadOtpauthUrl(cause)),
        Ok(parsed) => match parsed.issuer {
            None => Err(CredentialErrorView::UrlWithoutIssuer),
            Some(issuer) => if parsed.account_name.len() == 0 {
                Err(CredentialErrorView::UrlWithoutAccountName)
            } else {
                Ok(NewCredentialView { issuer, name: parsed.account_name, url })
            },
        },
    }
}

/// The credential of an `otpauth` URL that was read as `parsed`: it needs an issuer and the name
/// of an account, and keeps the URL as it is.
pub fn credential_from_parsed(url: &str, parsed: Result<OtpauthUrl, String>) -> (credential: Result<
    NewCredential,
    CredentialError,
>)
    ensures
        (match credential {
            Ok(credential) => Ok(credential@),
            Err(error) => Err(error@),
        }) == parsed_credential(url@, reading(parsed)),
{
    match parsed {
        Err(cause) => Err(CredentialError::BadOtpauthUrl(cause)),
        Ok(parsed) => match parsed.issuer {
            None => Err(CredentialError::UrlWithoutIssuer),
            Some(issuer) => {
                if parsed.account_name.as_str().is_empty() {
                    Err(CredentialError::UrlWithoutAccountName)
                } else {
                    Ok(NewCredential { issuer, name: parsed.account_name, url: url.to_owned() })
                }
            },
        },
    }
}

/// Whether a URL is a migration URL.
pub open spec fn is_migration_url(url: Seq<char>) -> bool {
    "otpauth-migration://"@.is_prefix_of(url)
}

/// Whether a text is a URL that names credentials itself.
pub open spec fn is_credential_url(text: Seq<char>) -> bool {
    "otpauth://"@.is_prefix_of(text) || is_migration_url(text)
}

/// Whether `text` is a URL that names credentials itself.
pub fn names_credentials(text: &str) -> (named: bool)
    ensures
        named == is_credential_url(text@),
{
    starts_with(text, "otpauth://") || starts_with(text, "otpauth-migration://")
}

/// The credentials that a URL stands for.
pub open spec fn url_credentials(url: Seq<char>) -> Result<
    Seq<NewCredentialView>,
    CredentialErrorView,
> {
    if is_migration_url(url) {
        match migration_accounts(url) {
            None => Err(CredentialErrorView::BadMigrationUrl),
            Some(accounts) => migrated(accounts),
        }
    } else {
        match parsed_credential(url, otpauth_url(url)) {
            Ok(credential) => Ok(seq![credential]),
            Err(error) => Err(error),
        }
    }
}

/// The URL of an account is an `otpauth` URL.
proof fn account_url_is_no_migration_url(account: AccountView)
    ensures
        !is_migration_url(account_url(account)),
{
    reveal_strlit("otpauth://totp/");
    reveal_strlit("otpauth-migration://");
    let url = account_url(account);
    assert(url[7] == ':');
    assert("otpauth-migration://"@[7] == '-');
}

/// An account that is made into a URL and read back is that account's credential: where the URL
/// is read as naming the account's issuer and its name, which must not be empty, it yields the
/// credential of the account and no other.
pub proof fn read_accounts_are_kept(account: AccountView)
    ensures
        account.name.len() > 0 && (otpauth_url(account_url(account)) matches Ok(parsed)
            && parsed.issuer == Some(account.issuer) && parsed.account_name == account.name)
            ==> url_credentials(account_url(account)) == Ok::<
            Seq<NewCredentialView>,
            CredentialErrorView,
        >(seq![account_credential(account)]),
{
    account_url_is_no_migration_url(account);
}

/// The credentials that a URL stands for: those of all accounts of a migration URL, or the one of
/// an `otpauth` URL. The URL that was made of a named account yields that account's credential.
pub fn credentials_from_url(url: &str) -> (credentials: Result<Vec<NewCredential>, CredentialError>)
    ensures
        outcome(credentials) == url_credentials(url@),
        forall|account: AccountView|
            reads_back(account) && account.name.len() > 0 && url@ == #[trigger] account_url(account)
                ==> outcome(credentials) == Ok::<Seq<NewCredentialView>, CredentialErrorView>(
                seq![account_credential(account)],
            ),
{
    proof {
        assert forall|account: AccountView| url@ == #[trigger] account_url(account) implies !is_migration_url(
            url@,
        ) by {
            account_url_is_no_migration_url(account);
        }
    }
    if starts_with(url, "otpauth-migration://") {
        match accounts_in(url) {
            None => Err(CredentialError::BadMigrationUrl),
            Some(accounts) => credentials_from_accounts(accounts),
        }
    } else {
        let parsed = parse_otpauth_url(url);
        proof {
            assert forall|account: AccountView|
                reads_back(account) && account.name.len() > 0 && url@ == #[trigger] account_url(
                    account,
                ) implies url_credentials(url@) == Ok::<
                Seq<NewCredentialView>,
                CredentialErrorView,
            >(seq![account_credential(account)]) by {
                read_accounts_are_kept(account);
            }
        }
        match credential_from_parsed(url, parsed) {
            Err(error) => Err(error),
            Ok(credential) => {
                let mut credentials: Vec<NewCredential> = Vec::new();
                credentials.push(credential);
                assert(views(credentials@) == seq![credential@]);
                Ok(credentials)
            },
        }
    }
}

/// What a URL yields can be shown and stored: an `otpauth` URL yields one credential, which keeps
/// the URL and has a name, and a migration URL only credentials with an issuer.
pub proof fn yielded_credentials_are_named(url: Seq<char>)
    ensures
        url_credentials(url) matches Ok(credentials) ==> if is_migration_url(url) {
            forall|i: int|
                0 <= i < credentials.len() ==> (#[trigger] credentials[i]).issuer.len() > 0
        } else {
            &&& credentials.len() == 1
            &&& credentials[0].url == url
            &&& credentials[0].name.len() > 0
        },
{
    if is_migration_url(url) && migration_accounts(url) is Some {
        let accounts = migration_accounts(url).unwrap();
        if migrated(accounts) is Ok {
            let credentials = migrated(accounts)->Ok_0;
            assert forall|i: int| 0 <= i < credentials.len() implies (
            #[trigger] credentials[i]).issuer.len() > 0 by {
                assert(accounts[i].issuer.len() > 0);
            }
        }
    }
}

/// A character that percent-encoding can leave in a text: none that separates the parts of a URL.
pub open spec fn is_plain(c: char) -> bool {
    ||| '0' <= c <= '9'
    ||| 'A' <= c <= 'Z'
    ||| 'a' <= c <= 'z'
    ||| c == '-'
    ||| c == '.'
    ||| c == '_'
    ||| c == '~'
    ||| c == '%'
}

/// A percent-encoded text holds letters, digits, `-`, `.`, `_`, `~` and `%` alone, so that nothing in
/// it reads as a part of the URL around it.
pub proof fn percent_encoding_is_plain(bytes: Seq<u8>)
    ensures
        forall|i: int|
            0 <= i < percent_encoded(bytes).len() ==> is_plain(#[trigger] percent_encoded(bytes)[i]),
    decreases bytes.len(),
{
    if bytes.len() > 0 {
        let byte = bytes.last();
        percent_encoding_is_plain(bytes.drop_last());
        assert(is_plain(hex_digit(byte as int / 16)));
        assert(is_plain(hex_digit(byte as int % 16)));
        assert forall|i: int| 0 <= i < percent_encoded_byte(byte).len() implies is_plain(
            #[trigger] percent_encoded_byte(byte)[i],
        ) by {
            assert(i == 0 || i == 1 || i == 2);
        }
        let earlier = percent_encoded(bytes.drop_last());
        assert forall|i: int| 0 <= i < percent_encoded(bytes).len() implies is_plain(
            #[trigger] percent_encoded(bytes)[i],
        ) by {
            if i < earlier.len() {
                assert(percent_encoded(bytes)[i] == earlier[i]);
            } else {
                assert(percent_encoded(bytes)[i] == percent_encoded_byte(byte)[i - earlier.len()]);
            }
        }
    }
}

/// Every imported credential is made of the account that it comes from: there are as many as
/// accounts, in their order, and each has the issuer and the name of its own account, and a URL
/// with that account's percent-encoded issuer and name and that account's own secret. One account
/// without an issuer has them all refused.
pub proof fn accounts_are_imported_one_by_one(accounts: Seq<AccountView>)
    ensures
        (exists|i: int| 0 <= i < accounts.len() && (#[trigger] accounts[i]).issuer.len() == 0)
            ==> migrated(accounts) == Err::<Seq<NewCredentialView>, CredentialErrorView>(
            CredentialErrorView::AccountWithoutIssuer,
        ),
        (forall|i: int| 0 <= i < accounts.len() ==> (#[trigger] accounts[i]).issuer.len() > 0) ==> {
            &&& migrated(accounts) matches Ok(credentials)
            &&& credentials.len() == accounts.len()
            &&& forall|i: int|
                0 <= i < accounts.len() ==> {
                    let issuer = percent_encoded(encode_utf8(accounts[i].issuer));
                    let name = percent_encoded(encode_utf8(accounts[i].name));
                    &&& (#[trigger] credentials[i]).issuer == accounts[i].issuer
                    &&& credentials[i].name == accounts[i].name
                    &&& credentials[i].url == "otpauth://totp/"@ + issuer + ":"@ + name
                        + "?secret="@ + accounts[i].secret + "&issuer="@ + issuer
                }
        },
{
}

/// Accounts are imported each for itself: what two exports in a row yield is what the one yields,
/// followed by what the other yields.
pub proof fn exports_are_imported_in_a_row(first: Seq<AccountView>, second: Seq<AccountView>)
    ensures
        migrated(first) is Ok && migrated(second) is Ok ==> migrated(first + second) == Ok::<
            Seq<NewCredentialView>,
            CredentialErrorView,
        >(migrated(first)->Ok_0 + migrated(second)->Ok_0),
        migrated(first) is Err || migrated(second) is Err ==> migrated(first + second) is Err,
{
    let both = first + second;
    if migrated(first) is Err {
        let i = choose|i: int| 0 <= i < first.len() && (#[trigger] first[i]).issuer.len() == 0;
        assert(both[i].issuer.len() == 0);
    } else if migrated(second) is Err {
        let i = choose|i: int| 0 <= i < second.len() && (#[trigger] second[i]).issuer.len() == 0;
        assert(both[first.len() + i].issuer.len() == 0);
    } else {
        assert forall|i: int| 0 <= i < both.len() implies (#[trigger] both[i]).issuer.len() > 0 by {
            if i < first.len() {
                assert(first[i].issuer.len() > 0);
            } else {
                assert(second[i - first.len()].issuer.len() > 0);
            }
        }
        assert(migrated(both)->Ok_0 == migrated(first)->Ok_0 + migrated(second)->Ok_0);
    }
}

/// A URL that begins with `otpauth-migration://` yields the credentials of its accounts, and any
/// other the credential that it describes, with that URL itself: the issuer and the account name
/// are those that the URL is read as, and where one of them is missing, or the URL cannot be read,
/// that is why there is none.
pub proof fn urls_yield_what_they_describe(url: Seq<char>)
    ensures
        "otpauth-migration://"@.is_prefix_of(url) ==> match migration_accounts(url) {
            Some(accounts) => url_credentials(url) == migrated(accounts),
            None => url_credentials(url) == Err::<Seq<NewCredentialView>, CredentialErrorView>(
                CredentialErrorView::BadMigrationUrl,
            ),
        },
        !"otpauth-migration://"@.is_prefix_of(url) ==> match otpauth_url(url) {
            Err(cause) => url_credentials(url) == Err::<
                Seq<NewCredentialView>,
                CredentialErrorView,
            >(CredentialErrorView::BadOtpauthUrl(cause)),
            Ok(parsed) => {
                &&& url_credentials(url) is Ok <==> parsed.issuer is Some
                    && parsed.account_name.len() > 0
                &&& url_credentials(url) matches Ok(credentials) ==> {
                    &&& credentials.len() == 1
                    &&& Some(credentials[0].issuer) == parsed.issuer
                    &&& credentials[0].name == parsed.account_name
                    &&& credentials[0].url == url
                }
                &&& url_credentials(url) matches Err(error) ==> error == if parsed.issuer is None {
                    CredentialErrorView::UrlWithoutIssuer
                } else {
                    CredentialErrorView::UrlWithoutAccountName
                }
            },
        },
{
}

/// A text names credentials itself where it begins with `otpauth://` or `otpauth-migration://`.
pub proof fn urls_are_known_by_their_schemes(text: Seq<char>)
    ensures
        is_credential_url(text) <==> "otpauth://"@.is_prefix_of(text)
            || "otpauth-migration://"@.is_prefix_of(text),
        is_migration_url(text) <==> "otpauth-migration://"@.is_prefix_of(text),
{
}

/// Why a URL yields no credentials is told in these words.
pub proof fn useless_urls_are_told(cause: Seq<char>)
    ensures
        CredentialErrorView::BadMigrationUrl.text() == "Error parsing otpauth-migration URL"@,
        CredentialErrorView::AccountWithoutIssuer.text() == "TOTP account is missing an issuer"@,
        CredentialErrorView::BadOtpauthUrl(cause).text() == "Error parsing otpauth URL: "@ + cause,
        CredentialErrorView::UrlWithoutIssuer.text() == "TOTP URL is missing an issuer"@,
        CredentialErrorView::UrlWithoutAccountName.text() == "TOTP URL is missing an account name"@,
{
}

/// What an account and a URL were read as stands for itself, field by field, and so does what a
/// URL yields, item by item.
pub proof fn read_values_are_those_of_the_fields(
    account: Account,
    parsed: OtpauthUrl,
    credentials: Vec<NewCredential>,
    error: CredentialError,
)
    ensures
        account@.name == account.name@,
        account@.secret == account.secret@,
        account@.issuer == account.issuer@,
        parsed@.account_name == parsed.account_name@,
        parsed@.digits == parsed.digits,
        parsed@.step == parsed.step,
        parsed@.issuer is Some <==> parsed.issuer is Some,
        parsed.issuer matches Some(issuer) ==> parsed@.issuer == Some(issuer@),
        outcome(Ok(credentials)) matches Ok(found) && found.len() == credentials@.len() && forall|
            i: int,
        |
            0 <= i < credentials@.len() ==> #[trigger] found[i] == credentials@[i]@,
        outcome(Err(error)) == Err::<Seq<NewCredentialView>, CredentialErrorView>(error@),
{
}

/// The credentials of accounts are theirs one by one: each has the issuer and the name of the
/// account at its place, and a URL that was made of that account's issuer, name and secret. There
/// are some for all accounts, or for none where one has no issuer.
pub proof fn accounts_keep_their_secrets(
    accounts: Vec<Account>,
    credentials: Result<Vec<NewCredential>, CredentialError>,
)
    requires
        call_ensures(credentials_from_accounts, (accounts,), credentials),
    ensures
        credentials is Ok <==> forall|i: int|
            0 <= i < accounts@.len() ==> (#[trigger] accounts@[i]).issuer@.len() > 0,
        credentials matches Err(error) ==> error is AccountWithoutIssuer,
        credentials matches Ok(found) ==> {
            &&& found@.len() == accounts@.len()
            &&& forall|i: int|
                0 <= i < accounts@.len() ==> {
                    let issuer = percent_encoded(encode_utf8(accounts@[i].issuer@));
                    let name = percent_encoded(encode_utf8(accounts@[i].name@));
                    &&& (#[trigger] found@[i]).issuer@ == accounts@[i].issuer@
                    &&& found@[i].name@ == accounts@[i].name@
                    &&& found@[i].url@ == "otpauth://totp/"@ + issuer + ":"@ + name + "?secret="@
                        + accounts@[i].secret@ + "&issuer="@ + issuer
                }
        },
{
    let all = views(accounts@);
    accounts_are_imported_one_by_one(all);
    if migrated(all) is Ok {
        assert forall|i: int| 0 <= i < accounts@.len() implies (
        #[trigger] accounts@[i]).issuer@.len() > 0 by {
            assert(all[i].issuer.len() > 0);
        }
    } else {
        let i = choose|i: int| 0 <= i < all.len() && (#[trigger] all[i]).issuer.len() == 0;
        assert(accounts@[i].issuer@.len() == 0);
    }
    if let Ok(found) = credentials {
        let made = views(found@);
        assert(made.len() == found@.len());
        assert forall|i: int| 0 <= i < accounts@.len() implies {
            let issuer = percent_encoded(encode_utf8(accounts@[i].issuer@));
            let name = percent_encoded(encode_utf8(accounts@[i].name@));
            &&& (#[trigger] found@[i]).issuer@ == accounts@[i].issuer@
            &&& found@[i].name@ == accounts@[i].name@
            &&& found@[i].url@ == "otpauth://totp/"@ + issuer + ":"@ + name + "?secret="@
                + accounts@[i].secret@ + "&issuer="@ + issuer
        } by {
            assert(made[i] == found@[i]@);
            assert(all[i] == accounts@[i]@);
        }
    }
}

/// What a URL was read as decides: its credential has the issuer and the account name that were
/// read, and the URL itself; without one of them, or where the URL was not read, there is none.
pub proof fn read_urls_name_their_credential(
    url: &str,
    parsed: Result<OtpauthUrl, String>,
    credential: Result<NewCredential, CredentialError>,
)
    requires
        call_ensures(credential_from_parsed, (url, parsed), credential),
    ensures
        credential is Ok <==> (parsed matches Ok(read) && read.issuer is Some
            && read.account_name@.len() > 0),
        credential matches Ok(found) ==> {
            &&& found.issuer@ == parsed->Ok_0.issuer.unwrap()@
            &&& found.name@ == parsed->Ok_0.account_name@
            &&& found.url@ == url@
        },
        credential matches Err(error) ==> match parsed {
            Err(cause) => error matches CredentialError::BadOtpauthUrl(told) && told@ == cause@,
            Ok(read) => if read.issuer is None {
                error is UrlWithoutIssuer
            } else {
                error is UrlWithoutAccountName
            },
        },
{
}

/// Why a URL yields no credentials is told in these words by the error itself.
pub proof fn errors_tell_their_reasons(error: &CredentialError, text: String)
    requires
        call_ensures(CredentialError::message, (error,), text),
    ensures
        error is BadMigrationUrl ==> text@ == "Error parsing otpauth-migration URL"@,
        error is AccountWithoutIssuer ==> text@ == "TOTP account is missing an issuer"@,
        *error matches CredentialError::BadOtpauthUrl(cause) ==> text@
            == "Error parsing otpauth URL: "@ + cause@,
        error is UrlWithoutIssuer ==> text@ == "TOTP URL is missing an issuer"@,
        error is UrlWithoutAccountName ==> text@ == "TOTP URL is missing an account name"@,
{
}

} // verus!
