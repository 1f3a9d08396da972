//! The stored credentials and how they are numbered.
use vstd::prelude::*;
use vstd::string::StringExecFns;

verus! {

/// The number that the first credential gets.
pub const FIRST_CREDENTIAL_ID: u64 = 1;

/// What the items of a sequence stand for, one by one.
pub open spec fn views<T: View>(items: Seq<T>) -> Seq<T::V> {
    items.map_values(|item: T| item@)
}

/// A stored credential.
#[derive(Debug)]
pub struct Credential {
    pub id: u64,
    pub issuer: String,
    pub name: String,
    pub url: String,
}

/// A stored credential, as a value.
#[verifier::ext_equal]
pub struct CredentialView {
    pub id: u64,
    pub issuer: Seq<char>,
    pub name: Seq<char>,
    pub url: Seq<char>,
}

impl View for Credential {
    type V = CredentialView;

    open spec fn view(&self) -> CredentialView {
        CredentialView { id: self.id, issuer: self.issuer@, name: self.name@, url: self.url@ }
    }
}

impl Clone for Credential {
    fn clone(&self) -> (copy: Credential)
        ensures
            copy == *self,
    {
        Credential {
            id: self.id,
            issuer: self.issuer.clone(),
            name: self.name.clone(),
            url: self.url.clone(),
        }
    }
}

impl CredentialView {
    /// How a credential is called on the screen.
    pub open spec fn label(self) -> Seq<char> {
        self.issuer + ": "@ + self.name
    }
}

impl Credential {
    /// How the credential is called on the screen.
    pub fn label(&self) -> (label: String)
        ensures
            label@ == self@.label(),
    {
        let mut label = self.issuer.clone();
        label.append(": ");
        label.append(self.name.as_str());
        label
    }
}

/// A credential that has no number yet.
#[derive(Debug)]
pub struct NewCredential {
    pub issuer: String,
    pub name: String,
    pub url: String,
}

/// A credential that has no number yet, as a value.
#[verifier::ext_equal]
pub struct NewCredentialView {
    pub issuer: Seq<char>,
    pub name: Seq<char>,
    pub url: Seq<char>,
}

impl View for NewCredential {
    type V = NewCredentialView;

    open spec fn view(&self) -> NewCredentialView {
        NewCredentialView { issuer: self.issuer@, name: self.name@, url: self.url@ }
    }
}

impl NewCredentialView {
    /// The stored credential with the number `id`.
    pub open spec fn numbered(self, id: int) -> CredentialView {
        CredentialView { id: id as u64, issuer: self.issuer, name: self.name, url: self.url }
    }
}

/// All that is stored: the credentials in the order of the screen, and the next free number.
#[derive(Debug)]
pub struct Config {
    pub next_id: u64,
    pub credentials: Vec<Credential>,
}

/// All that is stored, as a value.
#[verifier::ext_equal]
pub struct ConfigView {
    pub next_id: u64,
    pub credentials: Seq<CredentialView>,
}

impl View for Config {
    type V = ConfigView;

    open spec fn view(&self) -> ConfigView {
        ConfigView { next_id: self.next_id, credentials: views(self.credentials@) }
    }
}

/// Why credentials were not added.
#[derive(Clone, Copy, Debug, PartialEq, Eq, Structural)]
pub enum ConfigError {
    NoCredentials,
    IdLimitReached,
}

impl ConfigError {
    /// What the user is told.
    pub open spec fn text(self) -> Seq<char> {
        match self {
            ConfigError::NoCredentials => "No credentials found"@,
            ConfigError::IdLimitReached => "Credential ID limit reached"@,
        }
    }

    /// What the user is told.
    pub fn message(&self) -> (text: String)
        ensures
            text@ == self.text(),
    {
        match self {
            ConfigError::NoCredentials => "No credentials found".to_owned(),
            ConfigError::IdLimitReached => "Credential ID limit reached".to_owned(),
        }
    }
}

impl ConfigView {
    /// Nothing stored.
    pub open spec fn empty() -> ConfigView {
        ConfigView { next_id: FIRST_CREDENTIAL_ID, credentials: Seq::empty() }
    }

    /// The store with `new` behind what it held, numbered from its next free number on.
    pub open spec fn with_added(self, new: Seq<NewCredentialView>) -> ConfigView {
        ConfigView {
            next_id: (self.next_id + new.len()) as u64,
            credentials: self.credentials + Seq::new(
                new.len(),
                |i: int| new[i].numbered(self.next_id + i),
            ),
        }
    }

    /// What adding `new` comes to.
    pub open spec fn adding(self, new: Seq<NewCredentialView>) -> Result<ConfigView, ConfigError> {
        if new.len() == 0 {
            Err(ConfigError::NoCredentials)
        } else if self.next_id + new.len() > u64::MAX {
            Err(ConfigError::IdLimitReached)
        } else {
            Ok(self.with_added(new))
        }
    }

    /// The store without the credential at `index`.
    pub open spec fn without(self, index: int) -> ConfigView {
        ConfigView { next_id: self.next_id, credentials: self.credentials.remove(index) }
    }

    /// The store with the credential at `index` called `name`.
    pub open spec fn renamed(self, index: int, name: Seq<char>) -> ConfigView {
        ConfigView {
            next_id: self.next_id,
            credentials: self.credentials.update(
                index,
                CredentialView { name, ..self.credentials[index] },
            ),
        }
    }

    /// Every number in use is below the next free one, and no two credentials share one.
    pub open spec fn ids_sound(self) -> bool {
        &&& forall|i: int|
            0 <= i < self.credentials.len() ==> (#[trigger] self.credentials[i]).id < self.next_id
        &&& forall|i: int, j: int|
            0 <= i < j < self.credentials.len() ==> (#[trigger] self.credentials[i]).id != (
            #[trigger] self.credentials[j]).id
    }

    /// A credential has the number `id`.
    pub open spec fn holds(self, id: u64) -> bool {
        exists|i: int| 0 <= i < self.credentials.len() && (#[trigger] self.credentials[i]).id == id
    }

    /// The next free number is not below that of `earlier`, and every number below the latter
    /// was in use already.
    pub open spec fn follows(self, earlier: ConfigView) -> bool {
        &&& self.next_id >= earlier.next_id
        &&& forall|id: u64| #[trigger] self.holds(id) && id < earlier.next_id ==> earlier.holds(id)
    }
}

impl Default for Config {
    fn default() -> (config: Config)
        ensures
            config@ == ConfigView::empty(),
            config@.ids_sound(),
    {
        Config { next_id: FIRST_CREDENTIAL_ID, credentials: Vec::new() }
    }
}

impl Clone for Config {
    fn clone(&self) -> (copy: Config)
        ensures
            copy@ == self@,
    {
        let credentials = self.credentials.clone();
        assert(views(credentials@) == views(self.credentials@));
        Config { next_id: self.next_id, credentials }
    }
}

impl Config {
    /// Appends credentials under the next free numbers and tells how many there were. Where
    /// there are none, or the numbers do not reach, nothing changes.
    pub fn add(&mut self, credentials: Vec<NewCredential>) -> (count: Result<usize, ConfigError>)
        ensures
            match old(self)@.adding(views(credentials@)) {
                Ok(config) => count == Ok::<usize, ConfigError>(credentials.len()) && final(self)@
                    == config,
                Err(error) => count == Err::<usize, ConfigError>(error) && final(self)@ == old(
                    self,
                )@,
            },
    {
        if credentials.is_empty() {
            return Err(ConfigError::NoCredentials);
        }
        let count: usize = credentials.len();
        let next_id: u64 = match self.next_id.checked_add(count as u64) {
            Some(next_id) => next_id,
            None => {
                return Err(ConfigError::IdLimitReached);
            },
        };
        let ghost before = self@;
        let ghost new = views(credentials@);
        let mut id: u64 = self.next_id;
        for credential in iter: credentials
            invariant
                before == old(self)@,
                new == views(iter.seq()),
                self.next_id == before.next_id,
                before.next_id + new.len() <= u64::MAX,
                id == before.next_id + iter.index(),
                views(self.credentials@) == before.with_added(new.take(iter.index())).credentials,
        {
            let ghost i = iter.index();
            let ghost held = self.credentials@;
            self.credentials.push(
                Credential {
                    id,
                    issuer: credential.issuer,
                    name: credential.name,
                    url: credential.url,
                },
            );
            assert(views(self.credentials@) == views(held).push(new[i].numbered(before.next_id + i)));
            assert(before.with_added(new.take(i + 1)).credentials == before.with_added(
                new.take(i),
            ).credentials.push(new[i].numbered(before.next_id + i)));
            id = id + 1;
        }
        self.next_id = next_id;
        assert(new.take(new.len() as int) == new);
        Ok(count)
    }
}

/// Adding credentials keeps the numbers sound.
pub proof fn adding_keeps_ids_sound(config: ConfigView, new: Seq<NewCredentialView>)
    requires
        config.ids_sound(),
    ensures
        config.adding(new) matches Ok(added) ==> added.ids_sound(),
{
}

/// Deleting and renaming a credential keep the numbers sound.
pub proof fn editing_keeps_ids_sound(config: ConfigView, index: int, name: Seq<char>)
    requires
        config.ids_sound(),
        0 <= index < config.credentials.len(),
    ensures
        config.without(index).ids_sound(),
        config.renamed(index, name).ids_sound(),
{
}

/// The number of a deleted credential is not given out again: whatever is added after the
/// deletion gets another one.
pub proof fn deleted_ids_are_not_given_out_again(
    config: ConfigView,
    index: int,
    new: Seq<NewCredentialView>,
)
    requires
        config.ids_sound(),
        0 <= index < config.credentials.len(),
    ensures
        config.without(index).adding(new) matches Ok(added) ==> !added.holds(
            config.credentials[index].id,
        ),
{
}

/// Numbers that are not in use below the next free one stay out of use: a store that follows
/// one that follows a third follows the third.
pub proof fn numbers_stay_retired(first: ConfigView, second: ConfigView, third: ConfigView)
    requires
        second.follows(first),
        third.follows(second),
    ensures
        third.follows(first),
{
}

/// A store follows itself, and what adding, deleting and renaming make of it follow it.
pub proof fn changes_follow(
    config: ConfigView,
    index: int,
    name: Seq<char>,
    new: Seq<NewCredentialView>,
)
    requires
        0 <= index < config.credentials.len(),
    ensures
        config.follows(config),
        config.without(index).follows(config),
        config.renamed(index, name).follows(config),
        config.adding(new) matches Ok(added) ==> added.follows(config),
{
}

/// A credential is called by its issuer and its name, with a colon and a space between them.
pub proof fn labels_name_issuer_and_account(credential: CredentialView)
    ensures
        credential.label() == credential.issuer + seq![':', ' '] + credential.name,
{
    reveal_strlit(": ");
    assert(": "@ == seq![':', ' ']);
}

/// Adding keeps what was stored and puts the new credentials behind it, in their order and as they
/// are, under the numbers from the next free one on. Nothing is refused but no credentials at all,
/// and more than there are numbers for.
pub proof fn adding_appends(config: ConfigView, new: Seq<NewCredentialView>)
    ensures
        new.len() == 0 ==> config.adding(new) == Err::<ConfigView, ConfigError>(
            ConfigError::NoCredentials,
        ),
        new.len() > 0 && config.next_id + new.len() > u64::MAX ==> config.adding(new) == Err::<
            ConfigView,
            ConfigError,
        >(ConfigError::IdLimitReached),
        new.len() > 0 && config.next_id + new.len() <= u64::MAX ==> {
            &&& config.adding(new) matches Ok(added)
            &&& added.next_id == config.next_id + new.len()
            &&& added.credentials.len() == config.credentials.len() + new.len()
            &&& forall|i: int|
                0 <= i < config.credentials.len() ==> #[trigger] added.credentials[i]
                    == config.credentials[i]
            &&& forall|i: int|
                config.credentials.len() <= i < added.credentials.len() ==> {
                    let source = new[i - config.credentials.len()];
                    &&& (#[trigger] added.credentials[i]).id == config.next_id + i
                        - config.credentials.len()
                    &&& added.credentials[i].issuer == source.issuer
                    &&& added.credentials[i].name == source.name
                    &&& added.credentials[i].url == source.url
                }
        },
{
}

/// Deleting takes one credential away and keeps the others, in their order.
pub proof fn deleting_keeps_the_others(config: ConfigView, index: int)
    requires
        0 <= index < config.credentials.len(),
    ensures
        config.without(index).next_id == config.next_id,
        config.without(index).credentials.len() == config.credentials.len() - 1,
        forall|i: int|
            0 <= i < index ==> #[trigger] config.without(index).credentials[i]
                == config.credentials[i],
        forall|i: int|
            index <= i < config.credentials.len() - 1 ==> #[trigger] config.without(
                index,
            ).credentials[i] == config.credentials[i + 1],
{
}

/// Renaming changes the name of one credential, and nothing else of it or of any other.
pub proof fn renaming_keeps_the_rest(config: ConfigView, index: int, name: Seq<char>)
    requires
        0 <= index < config.credentials.len(),
    ensures
        ({
            let renamed = config.renamed(index, name);
            &&& renamed.next_id == config.next_id
            &&& renamed.credentials.len() == config.credentials.len()
            &&& forall|i: int|
                0 <= i < config.credentials.len() && i != index
                    ==> #[trigger] renamed.credentials[i] == config.credentials[i]
            &&& renamed.credentials[index].id == config.credentials[index].id
            &&& renamed.credentials[index].issuer == config.credentials[index].issuer
            &&& renamed.credentials[index].url == config.credentials[index].url
            &&& renamed.credentials[index].name == name
        }),
{
}

/// An empty store holds no credential and gives out the number one next.
pub proof fn numbers_begin_at_one()
    ensures
        ConfigView::empty().credentials.len() == 0,
        ConfigView::empty().next_id == 1,
{
}

/// Why credentials were not added is told in these words.
pub proof fn refused_additions_are_told()
    ensures
        ConfigError::NoCredentials.text() == "No credentials found"@,
        ConfigError::IdLimitReached.text() == "Credential ID limit reached"@,
{
}

/// Items stand for values one by one, in their order.
pub proof fn items_stand_for_values<T: View>(items: Seq<T>)
    ensures
        views(items).len() == items.len(),
        forall|i: int| 0 <= i < items.len() ==> #[trigger] views(items)[i] == items[i]@,
{
}

/// What is stored stands for itself, field by field.
pub proof fn stored_values_are_those_of_the_fields(
    credential: Credential,
    new: NewCredential,
    config: Config,
)
    ensures
        credential@.id == credential.id,
        credential@.issuer == credential.issuer@,
        credential@.name == credential.name@,
        credential@.url == credential.url@,
        new@.issuer == new.issuer@,
        new@.name == new.name@,
        new@.url == new.url@,
        config@.next_id == config.next_id,
        config@.credentials.len() == config.credentials@.len(),
        forall|i: int|
            0 <= i < config.credentials@.len() ==> #[trigger] config@.credentials[i]
                == config.credentials@[i]@,
{
}

/// Adding puts the given credentials behind those that are stored, field by field, and tells how
/// many they are; where it fails, nothing changes.
pub proof fn given_credentials_are_appended(
    config: &mut Config,
    credentials: Vec<NewCredential>,
    count: Result<usize, ConfigError>,
)
    requires
        call_ensures(Config::add, (config, credentials), count),
    ensures
        count is Ok <==> credentials@.len() > 0 && old(config).next_id + credentials@.len()
            <= u64::MAX,
        count is Err ==> final(config)@ == old(config)@,
        count matches Ok(added) ==> {
            let before = old(config).credentials@;
            let after = final(config).credentials@;
            &&& added == credentials@.len()
            &&& final(config).next_id == old(config).next_id + added
            &&& after.len() == before.len() + added
            &&& forall|i: int| 0 <= i < before.len() ==> (#[trigger] after[i])@ == before[i]@
            &&& forall|i: int|
                before.len() <= i < after.len() ==> {
                    &&& (#[trigger] after[i]).id == old(config).next_id + i - before.len()
                    &&& after[i].issuer@ == credentials@[i - before.len()].issuer@
                    &&& after[i].name@ == credentials@[i - before.len()].name@
                    &&& after[i].url@ == credentials@[i - before.len()].url@
                }
        },
{
    let before = old(config).credentials@;
    let after = final(config).credentials@;
    if count is Ok {
        assert(after.len() == final(config)@.credentials.len());
        assert(before.len() == old(config)@.credentials.len());
        assert forall|i: int| 0 <= i < before.len() implies (#[trigger] after[i])@ == before[i]@ by {
            assert(final(config)@.credentials[i] == old(config)@.credentials[i]);
        }
        assert forall|i: int| before.len() <= i < after.len() implies {
            &&& (#[trigger] after[i]).id == old(config).next_id + i - before.len()
            &&& after[i].issuer@ == credentials@[i - before.len()].issuer@
            &&& after[i].name@ == credentials@[i - before.len()].name@
            &&& after[i].url@ == credentials@[i - before.len()].url@
        } by {
            assert(final(config)@.credentials[i] == after[i]@);
            assert(views(credentials@)[i - before.len()] == credentials@[i - before.len()]@);
        }
    }
}

} // verus!
