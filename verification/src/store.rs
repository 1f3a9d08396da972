//! Reading the stored credentials back, and what goes wrong with the store.
use crate::config::{Config, ConfigView};
use vstd::prelude::*;
use vstd::string::StringExecFns;

verus! {

/// What went wrong with the store, with the reason.
#[derive(Debug)]
pub enum StoreError {
    Unreadable(String),
    Malformed(String),
    Unwritable(String),
    Unserializable(String),
}

impl StoreError {
    /// What was not possible.
    pub open spec fn fault(self) -> Seq<char> {
        match self {
            StoreError::Unreadable(_) => "Failed to read config from keyring"@,
            StoreError::Malformed(_) => "Failed to parse config from keyring"@,
            StoreError::Unwritable(_) => "Failed to save config to keyring"@,
            StoreError::Unserializable(_) => "Failed to serialize config"@,
        }
    }

    /// The reason.
    pub open spec fn cause(self) -> Seq<char> {
        match self {
            StoreError::Unreadable(cause) => cause@,
            StoreError::Malformed(cause) => cause@,
            StoreError::Unwritable(cause) => cause@,
            StoreError::Unserializable(cause) => cause@,
        }
    }

    /// What the user is told.
    pub open spec fn text(self) -> Seq<char> {
        self.fault() + ": "@ + self.cause()
    }

    /// What was not possible, without the reason.
    pub fn summary(&self) -> (text: String)
        ensures
            text@ == self.fault(),
    {
        match self {
            StoreError::Unreadable(_) => "Failed to read config from keyring".to_owned(),
            StoreError::Malformed(_) => "Failed to parse config from keyring".to_owned(),
            StoreError::Unwritable(_) => "Failed to save config to keyring".to_owned(),
            StoreError::Unserializable(_) => "Failed to serialize config".to_owned(),
        }
    }

    /// What the user is told.
    pub fn message(&self) -> (text: String)
        ensures
            text@ == self.text(),
    {
        let mut text = self.summary();
        text.append(": ");
        match self {
            StoreError::Unreadable(cause) => text.append(cause.as_str()),
            StoreError::Malformed(cause) => text.append(cause.as_str()),
            StoreError::Unwritable(cause) => text.append(cause.as_str()),
            StoreError::Unserializable(cause) => text.append(cause.as_str()),
        }
        text
    }
}

/// What the keyring answers when it is asked for the store.
#[derive(Debug)]
pub enum Stored {
    /// A secret, and what it reads as.
    Secret(Result<Config, String>),
    /// Nothing is stored yet.
    NoEntry,
    /// The keyring does not answer, for the given reason.
    Failure(String),
}

/// The credentials to begin with: those in the store, or none where nothing is stored yet.
pub fn read_config(stored: Stored) -> (config: Result<Config, StoreError>)
    ensures
        match stored {
            Stored::Secret(Ok(kept)) => config == Ok::<Config, StoreError>(kept),
            Stored::Secret(Err(cause)) => config == Err::<Config, StoreError>(
                StoreError::Malformed(cause),
            ),
            Stored::NoEntry => config matches Ok(fresh) && fresh@ == ConfigView::empty(),
            Stored::Failure(cause) => config == Err::<Config, StoreError>(
                StoreError::Unreadable(cause),
            ),
        },
{
    match stored {
        Stored::Secret(Ok(config)) => Ok(config),
        Stored::Secret(Err(cause)) => Err(StoreError::Malformed(cause)),
        Stored::NoEntry => Ok(Config::default()),
        Stored::Failure(cause) => Err(StoreError::Unreadable(cause)),
    }
}

/// What went wrong with the store is told in these words, each followed by the reason.
pub proof fn faults_of_the_store_have_reasons(cause: String)
    ensures
        StoreError::Unreadable(cause).text() == "Failed to read config from keyring"@ + ": "@
            + cause@,
        StoreError::Malformed(cause).text() == "Failed to parse config from keyring"@ + ": "@
            + cause@,
        StoreError::Unwritable(cause).text() == "Failed to save config to keyring"@ + ": "@
            + cause@,
        StoreError::Unserializable(cause).text() == "Failed to serialize config"@ + ": "@ + cause@,
{
}

/// What is stored is what the program begins with, as it is; nothing stored yet is an empty store,
/// whose first number is one; and a store that cannot be had or read is an error with its reason.
pub proof fn the_store_is_read_as_it_is(stored: Stored, config: Result<Config, StoreError>)
    requires
        call_ensures(read_config, (stored,), config),
    ensures
        stored matches Stored::Secret(Ok(kept)) ==> config == Ok::<Config, StoreError>(kept),
        stored matches Stored::Secret(Err(cause)) ==> config == Err::<Config, StoreError>(
            StoreError::Malformed(cause),
        ),
        stored is NoEntry ==> (config matches Ok(fresh) && fresh.next_id == 1
            && fresh.credentials@.len() == 0),
        stored matches Stored::Failure(cause) ==> config == Err::<Config, StoreError>(
            StoreError::Unreadable(cause),
        ),
{
    if stored is NoEntry {
        assert(config->Ok_0@.credentials.len() == config->Ok_0.credentials@.len());
    }
}

} // verus!
