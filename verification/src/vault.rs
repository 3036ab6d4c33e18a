//! The vault: locked or unlocked, and what may be asked of it.
//!
//! Secrets live only inside [`UnlockedVault`]. Metadata carries none, and is all
//! that leaves this module toward the socket.

use vstd::prelude::*;

use crate::config::Config;
use crate::entry::{
    clock_model, entry_models, meta_of, secret_of, steps_for_words, token_models, CopyField,
    CopyFieldModel, Entry, EntryMeta, EntryMetaModel, EntryModel, TypeToken, TypeTokenModel,
};
use crate::ipc::{event_model, outcome, Event, EventModel, IpcError, IpcErrorModel, LockReason};
use crate::json::{Json, JsonObject, JsonValue};
use crate::search::{rank, ranking};
use crate::secret::Secret;
use crate::text::{join2, join3, same_text, split_words, texts, words};

verus! {

// ---------------------------------------------------------------- state

/// The entries of a vault that has been decrypted.
#[derive(Debug)]
pub struct UnlockedVault {
    entries: Vec<Entry>,
}

impl View for UnlockedVault {
    type V = Seq<EntryModel>;

    closed spec fn view(&self) -> Seq<EntryModel> {
        entry_models(self.entries@)
    }
}

/// The state of the vault.
#[derive(Debug)]
pub enum VaultState {
    Locked,
    Unlocked(UnlockedVault),
    /// An unlock is in flight; a second one is turned away.
    Unlocking,
}

/// What the state of the vault says.
pub enum VaultModel {
    Locked,
    Unlocked(Seq<EntryModel>),
    Unlocking,
}

impl View for VaultState {
    type V = VaultModel;

    open spec fn view(&self) -> VaultModel {
        match self {
            VaultState::Locked => VaultModel::Locked,
            VaultState::Unlocked(vault) => VaultModel::Unlocked(vault@),
            VaultState::Unlocking => VaultModel::Unlocking,
        }
    }
}

// ---------------------------------------------------------------- asking for entries

/// The first entry with a given identifier.
pub open spec fn entry_with(entries: Seq<EntryModel>, uuid: Seq<char>) -> Option<EntryModel>
    decreases entries.len(),
{
    if entries.len() == 0 {
        None
    } else {
        match entry_with(entries.drop_last(), uuid) {
            Some(entry) => Some(entry),
            None => if entries.last().uuid == uuid {
                Some(entries.last())
            } else {
                None
            },
        }
    }
}

/// An entry found among the first is the entry found.
proof fn lemma_entry_stays(entries: Seq<EntryModel>, uuid: Seq<char>, count: int)
    requires
        0 <= count <= entries.len(),
        entry_with(entries.take(count), uuid) is Some,
    ensures
        entry_with(entries, uuid) == entry_with(entries.take(count), uuid),
    decreases entries.len() - count,
{
    if count < entries.len() {
        assert(entries.take(count + 1).drop_last() =~= entries.take(count));
        lemma_entry_stays(entries, uuid, count + 1);
    } else {
        assert(entries.take(count) =~= entries);
    }
}

impl VaultModel {
    /// The vault gives nothing away.
    pub open spec fn is_locked(self) -> bool {
        !(self is Unlocked)
    }

    /// The number of entries that can be asked for.
    pub open spec fn entry_count(self) -> nat {
        match self {
            VaultModel::Unlocked(entries) => entries.len(),
            _ => 0,
        }
    }

    /// The entries, if the vault is unlocked.
    pub open spec fn entries(self) -> Result<Seq<EntryModel>, IpcErrorModel> {
        match self {
            VaultModel::Unlocked(entries) => Ok(entries),
            _ => Err(IpcErrorModel::Locked),
        }
    }

    /// The entry with an identifier, if the vault is unlocked and has it.
    pub open spec fn entry(self, uuid: Seq<char>) -> Result<EntryModel, IpcErrorModel> {
        match self.entries() {
            Ok(entries) => match entry_with(entries, uuid) {
                Some(entry) => Ok(entry),
                None => Err(IpcErrorModel::NotFound(uuid)),
            },
            Err(err) => Err(err),
        }
    }

    /// What a search shows.
    pub open spec fn listing(self, query: Seq<char>, limit: nat) -> Result<
        Seq<EntryMetaModel>,
        IpcErrorModel,
    > {
        match self.entries() {
            Ok(entries) => Ok(listed(entries, query, limit)),
            Err(err) => Err(err),
        }
    }

    /// The public fields of an entry that are asked for by name.
    pub open spec fn fields(self, uuid: Seq<char>, names: Seq<Seq<char>>) -> Result<
        JsonValue,
        IpcErrorModel,
    > {
        match self.entry(uuid) {
            Ok(entry) => match public_fields(entry, names) {
                Ok(members) => Ok(JsonValue::Object(members)),
                Err(err) => Err(err),
            },
            Err(err) => Err(err),
        }
    }

    /// The text of a field of an entry.
    pub open spec fn secret(
        self,
        uuid: Seq<char>,
        field: CopyFieldModel,
        now: Result<u64, Seq<char>>,
    ) -> Result<Seq<char>, IpcErrorModel> {
        match self.entry(uuid) {
            Ok(entry) => secret_of(entry, field, now),
            Err(err) => Err(err),
        }
    }

    /// The typing steps that a sequence asks for.
    pub open spec fn steps(
        self,
        uuid: Seq<char>,
        sequence: Seq<char>,
        now: Result<u64, Seq<char>>,
    ) -> Result<Seq<TypeTokenModel>, IpcErrorModel> {
        match self.entry(uuid) {
            Ok(entry) => steps_for_words(entry, words(sequence), now),
            Err(err) => Err(err),
        }
    }

    /// What is told of the one-time passwords of an entry.
    pub open spec fn totp(self, uuid: Seq<char>, now: Result<u64, Seq<char>>) -> Result<
        JsonValue,
        IpcErrorModel,
    > {
        match self.entry(uuid) {
            Ok(entry) => Ok(totp_value(entry, now)),
            Err(err) => Err(err),
        }
    }
}

/// The metadata of the first `limit` entries that match a query, best first.
pub open spec fn listed(
    entries: Seq<EntryModel>,
    query: Seq<char>,
    limit: nat,
) -> Seq<EntryMetaModel> {
    let order = ranking(entries, query);
    let shown = if order.len() <= limit {
        order
    } else {
        order.take(limit as int)
    };
    shown.map_values(|i: int| meta_of(entries[i]))
}

/// Why a secret field is not shown.
pub open spec fn is_a_secret(name: Seq<char>) -> IpcErrorModel {
    IpcErrorModel::Unsupported("`"@ + name + "` is a secret; use copy or type"@)
}

/// What is shown of a field. Custom fields are secrets; one that the entry does
/// not have is shown as null.
pub open spec fn public_field(entry: EntryModel, name: Seq<char>) -> Result<
    JsonValue,
    IpcErrorModel,
> {
    if name == "password"@ || name == "notes"@ {
        Err(is_a_secret(name))
    } else if name == "username"@ {
        Ok(JsonValue::Text(entry.username))
    } else if name == "url"@ {
        Ok(JsonValue::Text(entry.url))
    } else if name == "title"@ {
        Ok(JsonValue::Text(entry.title))
    } else if name == "group"@ {
        Ok(JsonValue::Text(entry.group))
    } else if entry.string_fields.contains_key(name) {
        Err(is_a_secret(name))
    } else {
        Ok(JsonValue::Null)
    }
}

/// What is shown of a list of fields, or the error of the first that is secret.
pub open spec fn public_fields(entry: EntryModel, names: Seq<Seq<char>>) -> Result<
    Map<Seq<char>, JsonValue>,
    IpcErrorModel,
>
    decreases names.len(),
{
    if names.len() == 0 {
        Ok(Map::empty())
    } else {
        match public_fields(entry, names.drop_last()) {
            Ok(members) => match public_field(entry, names.last()) {
                Ok(value) => Ok(members.insert(names.last(), value)),
                Err(err) => Err(err),
            },
            Err(err) => Err(err),
        }
    }
}

/// An error among the first fields is the error of the list.
proof fn lemma_first_secret_counts(entry: EntryModel, names: Seq<Seq<char>>, count: int)
    requires
        0 <= count <= names.len(),
        public_fields(entry, names.take(count)) is Err,
    ensures
        public_fields(entry, names) == public_fields(entry, names.take(count)),
    decreases names.len() - count,
{
    if count < names.len() {
        assert(names.take(count + 1).drop_last() =~= names.take(count));
        lemma_first_secret_counts(entry, names, count + 1);
    } else {
        assert(names.take(count) =~= names);
    }
}

/// The seconds for which a code that is shown at `now` stays valid. A clock that
/// cannot be read counts as the Unix epoch.
pub open spec fn remaining_seconds(step: u64, now: Result<u64, Seq<char>>) -> u64 {
    let secs = match now {
        Ok(secs) => secs,
        Err(_) => 0,
    };
    (step - secs % step) as u64
}

/// What is told of the one-time passwords of an entry: the timing, not the code.
pub open spec fn totp_value(entry: EntryModel, now: Result<u64, Seq<char>>) -> JsonValue {
    let none = Map::<Seq<char>, JsonValue>::empty();
    JsonValue::Object(
        match entry.totp {
            Some(totp) => none.insert("hasTotp"@, JsonValue::Bool(true)).insert(
                "period"@,
                JsonValue::Uint(totp.step),
            ).insert("remainingSec"@, JsonValue::Uint(remaining_seconds(totp.step, now))).insert(
                "digits"@,
                JsonValue::Uint(totp.digits as u64),
            ),
            None => none.insert("hasTotp"@, JsonValue::Bool(false)),
        },
    )
}

impl UnlockedVault {
    /// A vault with the given entries.
    pub fn new(entries: Vec<Entry>) -> (vault: UnlockedVault)
        ensures
            vault@ == entry_models(entries@),
    {
        UnlockedVault { entries }
    }

    /// The number of entries.
    pub fn len(&self) -> (len: usize)
        ensures
            len == self@.len(),
    {
        self.entries.len()
    }

    /// The first entry with the identifier `uuid`.
    pub fn find(&self, uuid: &str) -> (entry: Result<&Entry, IpcError>)
        ensures
            match entry {
                Ok(entry) => entry_with(self@, uuid@) == Some(entry@),
                Err(err) => entry_with(self@, uuid@) is None && err@ == IpcErrorModel::NotFound(
                    uuid@,
                ),
            },
    {
        let mut i: usize = 0;
        assert(self@.take(0) =~= Seq::<EntryModel>::empty());
        while i < self.entries.len()
            invariant
                i <= self.entries.len(),
                entry_with(self@.take(i as int), uuid@) is None,
            decreases self.entries.len() - i,
        {
            assert(self@.take(i + 1).drop_last() =~= self@.take(i as int));
            assert(self@.take(i + 1).last() == self.entries@[i as int]@);
            if same_text(self.entries[i].uuid.as_str(), uuid) {
                proof {
                    lemma_entry_stays(self@, uuid@, i + 1);
                }
                return Ok(&self.entries[i]);
            }
            i = i + 1;
        }
        assert(self@.take(i as int) =~= self@);
        Err(IpcError::NotFound(uuid.to_owned()))
    }

    /// The metadata of the first `limit` entries that match `query`, best first.
    pub fn list(&self, query: &str, limit: u64) -> (list: Vec<EntryMeta>)
        ensures
            meta_models(list@) == listed(self@, query@, limit as nat),
    {
        let order: Vec<usize> = rank(&self.entries, query);
        let ghost ranks = order@.map_values(|i: usize| i as int);
        let mut list: Vec<EntryMeta> = Vec::new();
        let mut i: usize = 0;
        while i < order.len() && (i as u64) < limit
            invariant
                i <= order.len(),
                i <= limit,
                list.len() == i,
                ranks == order@.map_values(|i: usize| i as int),
                forall|k: int| 0 <= k < order.len() ==> (#[trigger] order@[k]) < self.entries.len(),
                forall|k: int| 0 <= k < i ==> (#[trigger] list@[k])@ == meta_of(self@[ranks[k]]),
            decreases order.len() - i,
        {
            assert(ranks[i as int] == order@[i as int]);
            list.push(self.entries[order[i]].meta());
            i = i + 1;
        }
        assert(meta_models(list@) =~= listed(self@, query@, limit as nat));
        list
    }
}

/// The metadata of a list.
pub open spec fn meta_models(list: Seq<EntryMeta>) -> Seq<EntryMetaModel> {
    list.map_values(|meta: EntryMeta| meta@)
}

// ---------------------------------------------------------------- unlocking

/// Why a database cannot be opened.
#[derive(Debug)]
pub enum KdbxError {
    WrongKey,
    Other(String),
}

/// What came of an attempt to decrypt the vault.
#[derive(Debug)]
pub enum UnlockOutcome {
    /// The master password could not be collected.
    PromptFailed(String),
    /// The database was tried with the master password.
    Tried(Result<Vec<Entry>, KdbxError>),
}

/// What an attempt to decrypt the vault says.
pub enum UnlockOutcomeModel {
    PromptFailed(Seq<char>),
    WrongKey,
    Failed(Seq<char>),
    Opened(Seq<EntryModel>),
}

impl View for UnlockOutcome {
    type V = UnlockOutcomeModel;

    open spec fn view(&self) -> UnlockOutcomeModel {
        match self {
            UnlockOutcome::PromptFailed(why) => UnlockOutcomeModel::PromptFailed(why@),
            UnlockOutcome::Tried(Ok(entries)) => UnlockOutcomeModel::Opened(entry_models(entries@)),
            UnlockOutcome::Tried(Err(KdbxError::WrongKey)) => UnlockOutcomeModel::WrongKey,
            UnlockOutcome::Tried(Err(KdbxError::Other(why))) => UnlockOutcomeModel::Failed(why@),
        }
    }
}

impl UnlockOutcomeModel {
    /// The entries that the attempt gave, or the error that it is answered with.
    pub open spec fn entries(self) -> Result<Seq<EntryModel>, IpcErrorModel> {
        match self {
            UnlockOutcomeModel::PromptFailed(why) => Err(IpcErrorModel::IoError("pinentry: "@ + why)),
            UnlockOutcomeModel::WrongKey => Err(IpcErrorModel::AuthFailed),
            UnlockOutcomeModel::Failed(why) => Err(IpcErrorModel::VaultError(why)),
            UnlockOutcomeModel::Opened(entries) => Ok(entries),
        }
    }
}

/// How a request to unlock begins.
pub enum UnlockStart {
    /// The vault is unlocked already, with so many entries.
    Done(nat),
    /// An unlock is in flight.
    Busy,
    /// The attempt may start.
    Begin,
}

impl VaultModel {
    /// How a request to unlock begins in this state.
    pub open spec fn unlock_start(self) -> UnlockStart {
        match self {
            VaultModel::Locked => UnlockStart::Begin,
            VaultModel::Unlocked(entries) => UnlockStart::Done(entries.len()),
            VaultModel::Unlocking => UnlockStart::Busy,
        }
    }

    /// The state once an attempt to unlock has come to an end.
    pub open spec fn after_unlock(outcome: UnlockOutcomeModel) -> VaultModel {
        match outcome.entries() {
            Ok(entries) => VaultModel::Unlocked(entries),
            Err(_) => VaultModel::Locked,
        }
    }

    /// The event that locking the vault in this state gives.
    pub open spec fn lock_event(self, reason: LockReason) -> Option<EventModel> {
        if self is Locked {
            None
        } else {
            Some(EventModel::Locked { reason })
        }
    }
}

impl VaultState {
    /// The state at startup.
    pub fn locked(_config: &Config) -> (vault: VaultState)
        ensures
            vault@ == VaultModel::Locked,
    {
        VaultState::Locked
    }

    /// Whether the vault gives nothing away.
    pub fn is_locked(&self) -> (locked: bool)
        ensures
            locked == self@.is_locked(),
    {
        match self {
            VaultState::Unlocked(_) => false,
            _ => true,
        }
    }

    /// Whether an unlock is in flight.
    pub fn is_unlocking(&self) -> (unlocking: bool)
        ensures
            unlocking == (self@ is Unlocking),
    {
        match self {
            VaultState::Unlocking => true,
            _ => false,
        }
    }

    /// The number of entries that can be asked for.
    pub fn entry_count(&self) -> (count: usize)
        ensures
            count == self@.entry_count(),
    {
        match self {
            VaultState::Unlocked(vault) => vault.len(),
            _ => 0,
        }
    }

    /// The decrypted vault.
    pub fn unlocked(&self) -> (vault: Result<&UnlockedVault, IpcError>)
        ensures
            match vault {
                Ok(vault) => self@ == VaultModel::Unlocked(vault@),
                Err(err) => self@.is_locked() && err@ == IpcErrorModel::Locked,
            },
    {
        match self {
            VaultState::Unlocked(vault) => Ok(vault),
            _ => Err(IpcError::Locked),
        }
    }

    /// Begins to unlock the vault. `Some` is the number of entries of a vault that
    /// is unlocked already; `None` means that the attempt is now in flight.
    pub fn unlock(&mut self) -> (start: Result<Option<usize>, IpcError>)
        ensures
            match old(self)@.unlock_start() {
                UnlockStart::Done(count) => start matches Ok(Some(n)) && n == count && *final(self)
                    == *old(self),
                UnlockStart::Busy => start matches Err(err) && err@ == IpcErrorModel::Busy
                    && *final(self) == *old(self),
                UnlockStart::Begin => start == Ok::<Option<usize>, IpcError>(None)
                    && *final(self) == VaultState::Unlocking,
            },
    {
        match self {
            VaultState::Unlocked(vault) => return Ok(Some(vault.len())),
            VaultState::Unlocking => return Err(IpcError::Busy),
            VaultState::Locked => {},
        }
        *self = VaultState::Unlocking;
        Ok(None)
    }

    /// The vault that an attempt to unlock gave.
    pub fn do_unlock(attempt: UnlockOutcome) -> (vault: Result<UnlockedVault, IpcError>)
        ensures
            outcome(vault) == attempt@.entries(),
    {
        match attempt {
            UnlockOutcome::PromptFailed(why) => Err(
                IpcError::IoError(join2("pinentry: ", why.as_str())),
            ),
            UnlockOutcome::Tried(Ok(entries)) => Ok(UnlockedVault::new(entries)),
            UnlockOutcome::Tried(Err(KdbxError::WrongKey)) => Err(IpcError::AuthFailed),
            UnlockOutcome::Tried(Err(KdbxError::Other(why))) => Err(IpcError::VaultError(why)),
        }
    }

    /// Ends the attempt in flight and gives the number of entries.
    pub fn finish_unlock(&mut self, attempt: UnlockOutcome) -> (count: Result<usize, IpcError>)
        requires
            old(self)@ is Unlocking,
        ensures
            final(self)@ == VaultModel::after_unlock(attempt@),
            match attempt@.entries() {
                Ok(entries) => count matches Ok(n) && n == entries.len(),
                Err(err) => count matches Err(e) && e@ == err,
            },
    {
        match VaultState::do_unlock(attempt) {
            Ok(vault) => {
                let count: usize = vault.len();
                *self = VaultState::Unlocked(vault);
                Ok(count)
            },
            Err(err) => {
                *self = VaultState::Locked;
                Err(err)
            },
        }
    }

    /// Locks the vault, which drops every secret it holds. Gives the event to
    /// announce, unless the vault was locked before.
    pub fn lock_now(&mut self, reason: LockReason) -> (event: Option<Event>)
        ensures
            final(self)@ == VaultModel::Locked,
            event_model(event) == old(self)@.lock_event(reason),
    {
        match self {
            VaultState::Locked => None,
            _ => {
                *self = VaultState::Locked;
                Some(Event::Locked { reason })
            },
        }
    }

    // ---- metadata and secrets, all of an unlocked vault

    /// The metadata of the first `limit` entries that match `query`, best first.
    pub fn list(&self, query: &str, limit: u64) -> (list: Result<Vec<EntryMeta>, IpcError>)
        ensures
            match list {
                Ok(list) => self@.listing(query@, limit as nat) == Ok::<
                    Seq<EntryMetaModel>,
                    IpcErrorModel,
                >(meta_models(list@)),
                Err(err) => self@.listing(query@, limit as nat) == Err::<
                    Seq<EntryMetaModel>,
                    IpcErrorModel,
                >(err@),
            },
    {
        match self.unlocked() {
            Ok(vault) => Ok(vault.list(query, limit)),
            Err(err) => Err(err),
        }
    }

    /// The entry with the identifier `uuid`.
    fn find(&self, uuid: &str) -> (entry: Result<&Entry, IpcError>)
        ensures
            match entry {
                Ok(entry) => self@.entry(uuid@) == Ok::<EntryModel, IpcErrorModel>(entry@),
                Err(err) => self@.entry(uuid@) == Err::<EntryModel, IpcErrorModel>(err@),
            },
    {
        match self.unlocked() {
            Ok(vault) => vault.find(uuid),
            Err(err) => Err(err),
        }
    }

    /// The public fields of an entry that are asked for by name.
    pub fn get_fields(&self, uuid: &str, fields: &Vec<String>) -> (value: Result<Json, IpcError>)
        ensures
            outcome(value) == self@.fields(uuid@, texts(fields@)),
    {
        let entry: &Entry = match self.find(uuid) {
            Ok(entry) => entry,
            Err(err) => return Err(err),
        };
        let ghost names = texts(fields@);
        let mut out: JsonObject = JsonObject::new();
        let mut i: usize = 0;
        assert(names.take(0) =~= Seq::<Seq<char>>::empty());
        while i < fields.len()
            invariant
                i <= fields.len(),
                names == texts(fields@),
                public_fields(entry@, names.take(i as int)) == Ok::<
                    Map<Seq<char>, JsonValue>,
                    IpcErrorModel,
                >(out@),
                self@.entry(uuid@) == Ok::<EntryModel, IpcErrorModel>(entry@),
            decreases fields.len() - i,
        {
            assert(names.take(i + 1).drop_last() =~= names.take(i as int));
            assert(names.take(i + 1).last() == fields@[i as int]@);
            match entry.public_field(fields[i].as_str()) {
                Ok(value) => {
                    out.insert(fields[i].as_str(), value);
                },
                Err(err) => {
                    proof {
                        lemma_first_secret_counts(entry@, names, i + 1);
                    }
                    return Err(err);
                },
            }
            i = i + 1;
        }
        assert(names.take(i as int) =~= names);
        Ok(Json::object(out))
    }

    /// The text of a field of an entry at the time `now`.
    pub fn secret_for(
        &self,
        uuid: &str,
        field: &CopyField,
        now: &Result<u64, String>,
    ) -> (text: Result<Secret, IpcError>)
        ensures
            outcome(text) == self@.secret(uuid@, field@, clock_model(*now)),
    {
        match self.find(uuid) {
            Ok(entry) => entry.secret(field, now),
            Err(err) => Err(err),
        }
    }

    /// The typing steps that `sequence` asks for at the time `now`.
    pub fn resolve_type_sequence(
        &self,
        uuid: &str,
        sequence: &str,
        now: &Result<u64, String>,
    ) -> (steps: Result<Vec<TypeToken>, IpcError>)
        ensures
            match steps {
                Ok(steps) => self@.steps(uuid@, sequence@, clock_model(*now)) == Ok::<
                    Seq<TypeTokenModel>,
                    IpcErrorModel,
                >(token_models(steps@)),
                Err(err) => self@.steps(uuid@, sequence@, clock_model(*now)) == Err::<
                    Seq<TypeTokenModel>,
                    IpcErrorModel,
                >(err@),
            },
    {
        match self.find(uuid) {
            Ok(entry) => entry.type_steps(&split_words(sequence), now),
            Err(err) => Err(err),
        }
    }

    /// What is told of the one-time passwords of an entry at the time `now`.
    pub fn totp_meta(&self, uuid: &str, now: &Result<u64, String>) -> (value: Result<
        Json,
        IpcError,
    >)
        ensures
            outcome(value) == self@.totp(uuid@, clock_model(*now)),
    {
        let entry: &Entry = match self.find(uuid) {
            Ok(entry) => entry,
            Err(err) => return Err(err),
        };
        let mut object: JsonObject = JsonObject::new();
        match &entry.totp {
            Some(totp) => {
                let period: u64 = totp.step();
                let now: u64 = match now {
                    Ok(secs) => *secs,
                    Err(_) => 0,
                };
                object.insert("hasTotp", Json::truth(true));
                object.insert("period", Json::uint(period));
                object.insert("remainingSec", Json::uint(period - now % period));
                object.insert("digits", Json::uint(totp.digits() as u64));
            },
            None => {
                object.insert("hasTotp", Json::truth(false));
            },
        }
        Ok(Json::object(object))
    }
}

impl Entry {
    /// What is shown of the field `name`.
    pub fn public_field(&self, name: &str) -> (value: Result<Json, IpcError>)
        ensures
            outcome(value) == public_field(self@, name@),
    {
        if same_text(name, "password") || same_text(name, "notes") {
            Err(IpcError::Unsupported(join3("`", name, "` is a secret; use copy or type")))
        } else if same_text(name, "username") {
            Ok(Json::text(self.username.as_str()))
        } else if same_text(name, "url") {
            Ok(Json::text(self.url.as_str()))
        } else if same_text(name, "title") {
            Ok(Json::text(self.title.as_str()))
        } else if same_text(name, "group") {
            Ok(Json::text(self.group.as_str()))
        } else if self.string_fields.get(name).is_some() {
            Err(IpcError::Unsupported(join3("`", name, "` is a secret; use copy or type")))
        } else {
            Ok(Json::null())
        }
    }
}

// ---------------------------------------------------------------- file watch

/// Whether the database file has changed since that was last announced.
#[derive(Debug)]
pub struct VaultWatch {
    dirty: bool,
}

impl View for VaultWatch {
    type V = bool;

    closed spec fn view(&self) -> bool {
        self.dirty
    }
}

/// What is announced when the file may have changed.
pub open spec fn change_event(dirty: bool) -> Option<EventModel> {
    if dirty {
        Some(EventModel::VaultChanged)
    } else {
        None
    }
}

impl VaultWatch {
    /// A file that has not changed.
    pub fn new() -> (watch: VaultWatch)
        ensures
            !watch@,
    {
        VaultWatch { dirty: false }
    }

    /// Notes that the file has changed.
    pub fn note_change(&mut self)
        ensures
            final(self)@,
    {
        self.dirty = true;
    }

    /// Gives the event to announce at the end of an interval: however often the
    /// file has changed in it, one.
    pub fn tick(&mut self) -> (event: Option<Event>)
        ensures
            event_model(event) == change_event(old(self)@),
            !final(self)@,
    {
        if self.dirty {
            self.dirty = false;
            Some(Event::VaultChanged)
        } else {
            None
        }
    }
}

} // verus!
