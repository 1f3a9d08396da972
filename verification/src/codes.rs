//! The codes that credentials stand for at the moment.
use crate::config::{Credential, CredentialView};
use crate::otpauth::{otpauth_url, parse_otpauth_url, OtpauthView};
use crate::text::{decimal, push_decimal};
use totp_rs::Totp;
use vstd::prelude::*;
use vstd::string::StringExecFns;

verus! {

/// Whether codes can be computed: ten digits and more do not fit the arithmetic of a code, and
/// a period of no seconds divides time by zero.
pub open spec fn computable(parameters: OtpauthView) -> bool {
    parameters.digits < 10 && parameters.step > 0
}

/// Whether a URL is read at all, but gives no computable code.
pub open spec fn uncomputable_url(url: Seq<char>) -> bool {
    otpauth_url(url) matches Ok(parameters) && !computable(parameters)
}

/// The code that `Totp::generate` of `totp_rs` gives for the credential of a URL, `time` seconds
/// after the Unix epoch.
pub uninterp spec fn code_at(url: Seq<char>, time: u64) -> Seq<char>;

/// A run of decimal digits of the length that a code has: one digit where none is asked for.
pub open spec fn looks_like_code(code: Seq<char>, digits: u8) -> bool {
    &&& code.len() == if digits == 0 {
        1
    } else {
        digits as nat
    }
    &&& forall|i: int| 0 <= i < code.len() ==> '0' <= #[trigger] code[i] <= '9'
}

/// `Totp::generate_current`: the code of some moment, the one that the clock shows. Which moment
/// that is no contract can say. The clock must not stand before the Unix epoch.
#[verifier::external_body]
fn generate_current(url: &str) -> (code: String)
    requires
        otpauth_url(url@) matches Ok(parameters) && computable(parameters),
    ensures
        exists|time: u64| code@ == #[trigger] code_at(url@, time),
        looks_like_code(code@, otpauth_url(url@)->Ok_0.digits),
{
    Totp::from_url_unchecked(url).unwrap().generate_current().to_string()
}

/// `Totp::ttl`: for how many seconds the current code stays valid, which is never none and never
/// more than the period. The clock must not stand before the Unix epoch.
#[verifier::external_body]
fn time_to_live(url: &str) -> (seconds: u64)
    requires
        otpauth_url(url@) matches Ok(parameters) && computable(parameters),
    ensures
        1 <= seconds <= otpauth_url(url@)->Ok_0.step,
{
    Totp::from_url_unchecked(url).unwrap().ttl()
}

/// Whether a code is that of a URL at some moment.
pub open spec fn is_code(url: Seq<char>, code: Seq<char>) -> bool {
    &&& otpauth_url(url) is Ok
    &&& exists|time: u64| code == #[trigger] code_at(url, time)
    &&& looks_like_code(code, otpauth_url(url)->Ok_0.digits)
}

/// Whether a code is that of a URL at some moment, and a number of seconds one for which it may
/// stay valid.
pub open spec fn is_current(url: Seq<char>, code: Seq<char>, seconds: u64) -> bool {
    is_code(url, code) && 1 <= seconds <= otpauth_url(url)->Ok_0.step
}

/// The current code of a credential and for how many seconds it stays valid, or why its URL
/// cannot be read.
pub fn current_code(credential: &Credential) -> (current: Result<(String, u64), String>)
    requires
        !uncomputable_url(credential.url@),
    ensures
        match otpauth_url(credential.url@) {
            Ok(_) => current matches Ok(pair) && is_current(credential.url@, pair.0@, pair.1),
            Err(cause) => current matches Err(reason) && reason@ == "Invalid credential URL: "@
                + cause,
        },
{
    let url = credential.url.as_str();
    match parse_otpauth_url(url) {
        Ok(_) => Ok((generate_current(url), time_to_live(url))),
        Err(cause) => {
            let mut reason = "Invalid credential URL: ".to_owned();
            reason.append(cause.as_str());
            Err(reason)
        },
    }
}

/// The current code of a credential, or nothing where its URL gives no computable code.
pub fn checked_current_code(credential: &Credential) -> (current: Option<
    Result<(String, u64), String>,
>)
    ensures
        uncomputable_url(credential.url@) <==> current is None,
        current matches Some(Ok(pair)) ==> is_current(credential.url@, pair.0@, pair.1),
        current matches Some(Err(reason)) ==> (otpauth_url(credential.url@) matches Err(cause)
            && reason@ == "Invalid credential URL: "@ + cause),
{
    match parse_otpauth_url(credential.url.as_str()) {
        Ok(parameters) => {
            if parameters.digits < 10 && parameters.step > 0 {
                Some(current_code(credential))
            } else {
                None
            }
        },
        Err(_) => Some(current_code(credential)),
    }
}

/// The row that shows a code and for how many seconds it stays valid.
pub open spec fn code_row(code: Seq<char>, seconds: u64) -> Seq<char> {
    code + " TTL: "@ + decimal(seconds as nat) + "s"@
}

/// The row of a credential whose URL cannot be read.
pub open spec fn invalid_row() -> Seq<char> {
    "Invalid credential URL"@
}

/// The row that shows what `current_code` gave.
pub fn describe_code(current: &Result<(String, u64), String>) -> (row: String)
    ensures
        row@ == match *current {
            Ok(pair) => code_row(pair.0@, pair.1),
            Err(_) => invalid_row(),
        },
{
    match current {
        Ok(pair) => {
            let mut row = pair.0.clone();
            row.append(" TTL: ");
            push_decimal(&mut row, pair.1);
            row.append("s");
            row
        },
        Err(_) => "Invalid credential URL".to_owned(),
    }
}

/// Whether a row shows the code that a credential has at some moment.
pub open spec fn shows_code(row: Seq<char>, credential: CredentialView) -> bool {
    if otpauth_url(credential.url) is Ok {
        exists|code: Seq<char>, seconds: u64|
            #[trigger] is_current(credential.url, code, seconds) && row == code_row(code, seconds)
    } else {
        row == invalid_row()
    }
}

/// The row that shows a credential's current code.
pub fn credential_code(credential: &Credential) -> (row: String)
    requires
        !uncomputable_url(credential.url@),
    ensures
        shows_code(row@, credential@),
{
    describe_code(&current_code(credential))
}

/// The row that shows a credential's current code, or nothing where its URL gives no computable
/// code.
pub fn checked_credential_code(credential: &Credential) -> (row: Option<String>)
    ensures
        row is None <==> uncomputable_url(credential.url@),
        row matches Some(text) ==> shows_code(text@, credential@),
{
    match parse_otpauth_url(credential.url.as_str()) {
        Ok(parameters) => {
            if parameters.digits < 10 && parameters.step > 0 {
                Some(credential_code(credential))
            } else {
                None
            }
        },
        Err(_) => Some(credential_code(credential)),
    }
}

/// A URL has no computable code where it is read but asks for ten digits or more, or for a period
/// of no seconds.
pub proof fn codes_have_limits(url: Seq<char>)
    ensures
        uncomputable_url(url) <==> (otpauth_url(url) matches Ok(parameters) && (parameters.digits
            >= 10 || parameters.step == 0)),
{
}

/// A current code is the one that the credential's own URL gives at some moment, of as many digits
/// as the URL asks for, and stays valid for at least a second and at most the URL's period.
pub proof fn current_codes_are_those_of_the_url(url: Seq<char>, code: Seq<char>, seconds: u64)
    requires
        is_current(url, code, seconds),
    ensures
        otpauth_url(url) matches Ok(parameters) && 1 <= seconds <= parameters.step && (
        parameters.digits > 0 ==> code.len() == parameters.digits),
        exists|time: u64| code == #[trigger] code_at(url, time),
        forall|i: int| 0 <= i < code.len() ==> '0' <= #[trigger] code[i] <= '9',
{
}

/// The row of a credential shows its own current code and for how many seconds that stays valid,
/// or that its URL cannot be read.
pub proof fn rows_show_current_codes(row: Seq<char>, credential: CredentialView)
    requires
        shows_code(row, credential),
    ensures
        otpauth_url(credential.url) is Err ==> row == "Invalid credential URL"@,
        otpauth_url(credential.url) is Ok ==> exists|time: u64, seconds: u64|
            {
                &&& 1 <= seconds <= otpauth_url(credential.url)->Ok_0.step
                &&& row == #[trigger] code_at(credential.url, time) + " TTL: "@
                    + #[trigger] decimal(seconds as nat) + "s"@
            },
{
    if otpauth_url(credential.url) is Ok {
        let (code, seconds) = choose|code: Seq<char>, seconds: u64|
            #[trigger] is_current(credential.url, code, seconds) && row == code_row(code, seconds);
        let time = choose|time: u64| code == #[trigger] code_at(credential.url, time);
        assert(row == code_at(credential.url, time) + " TTL: "@ + decimal(seconds as nat) + "s"@);
    }
}

/// The current code of a credential is one of its own URL, and none where that cannot be read.
pub proof fn codes_are_asked_of_the_url(
    credential: &Credential,
    current: Option<Result<(String, u64), String>>,
)
    requires
        call_ensures(checked_current_code, (credential,), current),
    ensures
        match otpauth_url(credential.url@) {
            Err(cause) => current matches Some(Err(reason)) && reason@
                == "Invalid credential URL: "@ + cause,
            Ok(parameters) => if parameters.digits >= 10 || parameters.step == 0 {
                current is None
            } else {
                current matches Some(Ok(pair)) && 1 <= pair.1 <= parameters.step && exists|
                    time: u64,
                |
                    pair.0@ == #[trigger] code_at(credential.url@, time)
            },
        },
{
}

/// A row shows the code that it is given and the seconds that it is given, or that there is none.
pub proof fn rows_show_what_is_given(current: &Result<(String, u64), String>, row: String)
    requires
        call_ensures(describe_code, (current,), row),
    ensures
        *current matches Ok(pair) ==> row@ == pair.0@ + " TTL: "@ + decimal(pair.1 as nat) + "s"@,
        *current is Err ==> row@ == "Invalid credential URL"@,
{
}

} // verus!
