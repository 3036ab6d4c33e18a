//! The daemon: what each request does, and what is answered.
//!
//! A request that needs nothing from outside is answered at once. One that needs
//! a prompt, the clipboard or the keyboard gives a [`Step`] to carry out; its
//! outcome is handed back to the daemon, which then answers.

use vstd::prelude::*;
use vstd::utf8::encode_utf8;

use crate::actions::{
    next_generation, scheduled_wipe, wipe_model, Clipboard, PendingWipe, PendingWipeModel,
    TypeOutcome, TypeOutcomeModel, WipeStep,
};
use crate::config::{Config, ConfigModel, VaultConfig, VaultConfigModel};
use crate::duration::Duration;
use crate::entry::{
    clock_model, field_named, meta_value, token_models, CopyField, CopyFieldModel, EntryMeta,
    EntryMetaModel, TypeToken, TypeTokenModel,
};
use crate::ipc::{
    event_models, outcome, Event, EventModel, IpcError, IpcErrorModel, LockReason, Request,
    RequestModel, PROTOCOL_VERSION,
};
use crate::json::{text_member, texts_member, uint_member, values, Json, JsonObject, JsonValue};
use crate::paths::{duplicate_path, optional_path, shown, UnixPath};
use crate::secret::{optional_text, Secret};
use crate::security::{
    idle_lock_due, lock_seconds, sleep_lock_due, ActivityClock, SessionSignal,
};
use crate::text::{join2, join3, same_text};
use crate::vault::{
    meta_models, UnlockOutcome, UnlockOutcomeModel, UnlockStart, VaultModel, VaultState,
};

verus! {

// ---------------------------------------------------------------- time

/// The time of a request.
#[derive(Debug)]
pub struct Moment {
    /// Milliseconds since the daemon started.
    pub uptime: u64,
    /// Seconds since the Unix epoch, or why they cannot be told.
    pub unix: Result<u64, String>,
}

/// What the time of a request says.
pub struct MomentModel {
    pub uptime: u64,
    pub unix: Result<u64, Seq<char>>,
}

impl View for Moment {
    type V = MomentModel;

    open spec fn view(&self) -> MomentModel {
        MomentModel { uptime: self.uptime, unix: clock_model(self.unix) }
    }
}

// ---------------------------------------------------------------- steps

/// What it takes to unlock the vault.
#[derive(Debug)]
pub struct UnlockPlan {
    /// The master password, if it came with the request; else it is prompted for.
    pub password: Option<Secret>,
    /// The database.
    pub path: UnixPath,
    /// The key file that pairs with the password.
    pub keyfile: Option<UnixPath>,
}

/// What it takes to unlock the vault.
pub struct UnlockPlanModel {
    pub password: Option<Seq<char>>,
    pub path: Seq<u8>,
    pub keyfile: Option<Seq<u8>>,
}

impl View for UnlockPlan {
    type V = UnlockPlanModel;

    open spec fn view(&self) -> UnlockPlanModel {
        UnlockPlanModel {
            password: optional_text(self.password),
            path: self.path@,
            keyfile: optional_path(self.keyfile),
        }
    }
}

/// What is to be put on the clipboard.
#[derive(Debug)]
pub struct CopyPlan {
    pub uuid: String,
    pub field: CopyField,
    pub value: Secret,
    pub clear_after: Duration,
}

/// What is to be put on the clipboard.
pub struct CopyPlanModel {
    pub uuid: Seq<char>,
    pub field: CopyFieldModel,
    pub value: Seq<char>,
    pub clear_after: nat,
}

impl View for CopyPlan {
    type V = CopyPlanModel;

    open spec fn view(&self) -> CopyPlanModel {
        CopyPlanModel {
            uuid: self.uuid@,
            field: self.field@,
            value: self.value@,
            clear_after: self.clear_after@,
        }
    }
}

/// What a request comes to.
#[derive(Debug)]
pub enum Step {
    /// The answer.
    Reply(Result<Json, IpcError>),
    /// Unlock the vault.
    Unlock(UnlockPlan),
    /// Put a secret on the clipboard.
    Copy(CopyPlan),
    /// Type a sequence.
    Type(Vec<TypeToken>),
}

/// What a request comes to.
pub enum StepModel {
    Reply(Result<JsonValue, IpcErrorModel>),
    Unlock(UnlockPlanModel),
    Copy(CopyPlanModel),
    Type(Seq<TypeTokenModel>),
}

impl View for Step {
    type V = StepModel;

    open spec fn view(&self) -> StepModel {
        match self {
            Step::Reply(result) => StepModel::Reply(outcome(*result)),
            Step::Unlock(plan) => StepModel::Unlock(plan@),
            Step::Copy(plan) => StepModel::Copy(plan@),
            Step::Type(tokens) => StepModel::Type(token_models(tokens@)),
        }
    }
}

// ---------------------------------------------------------------- state

/// Settings that name a database to serve.
#[derive(Debug)]
struct Served {
    config: Config,
}

impl Served {
    #[verifier::type_invariant]
    spec fn names_a_vault(self) -> bool {
        self.config@.vaults.len() > 0
    }

    /// The database that is served.
    fn vault(&self) -> (vault: &VaultConfig)
        ensures
            self.config@.vaults.len() > 0,
            vault@ == self.config@.vaults[0],
    {
        proof {
            use_type_invariant(self);
        }
        &self.config.vaults[0]
    }
}

/// The daemon.
#[derive(Debug)]
pub struct Daemon {
    served: Served,
    vault: VaultState,
    activity: ActivityClock,
    clipboard: Clipboard,
    /// Events that have yet to go out to the subscribers.
    outbox: Vec<Event>,
}

/// The state of the daemon.
pub struct DaemonModel {
    pub config: ConfigModel,
    pub vault: VaultModel,
    /// When something last happened, in milliseconds since the start.
    pub activity: u64,
    /// The generation of the latest copy.
    pub clipboard: u64,
    pub outbox: Seq<EventModel>,
}

impl View for Daemon {
    type V = DaemonModel;

    closed spec fn view(&self) -> DaemonModel {
        DaemonModel {
            config: self.served.config@,
            vault: self.vault@,
            activity: self.activity@,
            clipboard: self.clipboard@,
            outbox: event_models(self.outbox@),
        }
    }
}

impl DaemonModel {
    /// The state after something has happened at the time `now`.
    pub open spec fn touched(self, now: u64) -> DaemonModel {
        DaemonModel { activity: now, ..self }
    }

    /// The state with an event that has yet to go out.
    pub open spec fn emitted(self, event: EventModel) -> DaemonModel {
        DaemonModel { outbox: self.outbox.push(event), ..self }
    }

    /// The state with the vault in another state.
    pub open spec fn with_vault(self, vault: VaultModel) -> DaemonModel {
        DaemonModel { vault, ..self }
    }

    /// The state once the vault has been locked.
    pub open spec fn locked(self, reason: LockReason) -> DaemonModel {
        match self.vault.lock_event(reason) {
            Some(event) => self.with_vault(VaultModel::Locked).emitted(event),
            None => self.with_vault(VaultModel::Locked),
        }
    }

    /// The state once the vault has locked itself. Only an unlocked one does.
    pub open spec fn auto_locked(self, reason: LockReason) -> DaemonModel {
        if self.vault.is_locked() {
            self
        } else {
            self.locked(reason)
        }
    }

    /// The state once a signal of the login manager has been heeded: the session's
    /// lock locks the vault, and so does the announcement of sleep.
    pub open spec fn heeded(self, signal: SessionSignal) -> DaemonModel {
        match signal {
            SessionSignal::Lock => self.auto_locked(LockReason::SessionLock),
            SessionSignal::PrepareForSleep(about) => if about == Some(false) {
                self
            } else {
                self.auto_locked(LockReason::Sleep)
            },
        }
    }

    /// After a look at the clock: locked, if nothing has happened for too long.
    pub open spec fn ticked(self, now: u64) -> DaemonModel {
        if idle_lock_due(self.config.idle_lock, self.activity, now) {
            self.auto_locked(LockReason::Idle)
        } else {
            self
        }
    }

    /// After a copy, if there was one.
    pub open spec fn after_copy(self, copied: bool) -> DaemonModel {
        if copied {
            DaemonModel { clipboard: next_generation(self.clipboard), ..self }
        } else {
            self
        }
    }

    /// The wipe that is due to a copy, if there was one.
    pub open spec fn wipe_of(self, plan: CopyPlanModel, copied: bool) -> Option<PendingWipeModel> {
        if copied {
            scheduled_wipe(
                next_generation(self.clipboard),
                plan.uuid,
                plan.field,
                plan.value,
                plan.clear_after,
            )
        } else {
            None
        }
    }

    /// What a line that may be a request comes to.
    pub open spec fn line_step(
        self,
        parsed: Result<RequestModel, Seq<char>>,
        now: MomentModel,
    ) -> StepModel {
        match parsed {
            Ok(request) => step_for(self.touched(now.uptime), request, now),
            Err(why) => StepModel::Reply(Err(IpcErrorModel::BadRequest("invalid JSON: "@ + why))),
        }
    }

    /// After a line that may be a request: a request counts as activity.
    pub open spec fn after_line(
        self,
        parsed: Result<RequestModel, Seq<char>>,
        now: MomentModel,
    ) -> DaemonModel {
        match parsed {
            Ok(request) => state_after(self.touched(now.uptime), request),
            Err(_) => self,
        }
    }

    /// The database that is served.
    pub open spec fn active_vault(self) -> VaultConfigModel {
        self.config.vaults[0]
    }
}

// ---------------------------------------------------------------- answers

/// The answer to `hello`.
pub open spec fn hello_value(daemon: DaemonModel) -> JsonValue {
    JsonValue::Object(
        Map::<Seq<char>, JsonValue>::empty().insert(
            "daemonVersion"@,
            JsonValue::Text("0.1.0"@),
        ).insert("protocol"@, JsonValue::Uint(PROTOCOL_VERSION as u64)).insert(
            "vaultPath"@,
            JsonValue::Text(shown(daemon.active_vault().path)),
        ).insert("locked"@, JsonValue::Bool(daemon.vault.is_locked())).insert(
            "capabilities"@,
            JsonValue::Array(
                seq![
                    JsonValue::Text("copy"@),
                    JsonValue::Text("type"@),
                    JsonValue::Text("totp"@),
                    JsonValue::Text("pinentry"@),
                ],
            ),
        ),
    )
}

/// A number that may be missing, as JSON.
pub open spec fn optional_number(n: Option<u64>) -> JsonValue {
    match n {
        Some(n) => JsonValue::Uint(n),
        None => JsonValue::Null,
    }
}

/// The answer to `status` at the time `now`.
pub open spec fn status_value(daemon: DaemonModel, now: u64) -> JsonValue {
    JsonValue::Object(
        Map::<Seq<char>, JsonValue>::empty().insert(
            "locked"@,
            JsonValue::Bool(daemon.vault.is_locked()),
        ).insert("entryCount"@, JsonValue::Uint(daemon.vault.entry_count() as u64)).insert(
            "vaultPath"@,
            JsonValue::Text(shown(daemon.active_vault().path)),
        ).insert(
            "idleLockInSec"@,
            optional_number(lock_seconds(daemon.config.idle_lock, daemon.activity, now)),
        ),
    )
}

/// The answer to `unlock` once the vault is unlocked.
pub open spec fn unlocked_value(count: nat) -> JsonValue {
    JsonValue::Object(
        Map::<Seq<char>, JsonValue>::empty().insert("unlocked"@, JsonValue::Bool(true)).insert(
            "entryCount"@,
            JsonValue::Uint(count as u64),
        ),
    )
}

/// An answer that says one thing only.
pub open spec fn flag_value(name: Seq<char>) -> JsonValue {
    JsonValue::Object(Map::<Seq<char>, JsonValue>::empty().insert(name, JsonValue::Bool(true)))
}

/// The answer to `list`.
pub open spec fn entries_value(list: Seq<EntryMetaModel>) -> JsonValue {
    JsonValue::Object(
        Map::<Seq<char>, JsonValue>::empty().insert(
            "entries"@,
            JsonValue::Array(list.map_values(|meta: EntryMetaModel| meta_value(meta))),
        ),
    )
}

/// The answer to `get`.
pub open spec fn fields_value(uuid: Seq<char>, fields: JsonValue) -> JsonValue {
    JsonValue::Object(
        Map::<Seq<char>, JsonValue>::empty().insert("uuid"@, JsonValue::Text(uuid)).insert(
            "fields"@,
            fields,
        ),
    )
}

/// The answer to `copy` once the secret is on the clipboard.
pub open spec fn copied_value(plan: CopyPlanModel) -> JsonValue {
    JsonValue::Object(
        Map::<Seq<char>, JsonValue>::empty().insert("copied"@, JsonValue::Bool(true)).insert(
            "field"@,
            JsonValue::Text(plan.field.name()),
        ).insert(
            "clearsInMs"@,
            JsonValue::Uint((plan.clear_after % 0x1_0000_0000_0000_0000) as u64),
        ),
    )
}

// ---------------------------------------------------------------- requests

/// The text of an argument that must be there.
pub open spec fn required_text(args: JsonValue, key: Seq<char>) -> Result<
    Seq<char>,
    IpcErrorModel,
> {
    match text_member(args, key) {
        Some(text) => Ok(text),
        None => Err(IpcErrorModel::BadRequest("missing string field `"@ + key + "`"@)),
    }
}

/// What `unlock` comes to. A password that comes with the request is refused
/// unless the settings allow it, and so is a key file passed over.
pub open spec fn unlock_step(daemon: DaemonModel, args: JsonValue) -> StepModel {
    let password = text_member(args, "password"@);
    let inline = daemon.config.allow_inline_unlock;
    if password is Some && !inline {
        StepModel::Reply(
            Err(
                IpcErrorModel::Unsupported(
                    "inline-password unlock is disabled; enable allow_inline_unlock or use pinentry"@,
                ),
            ),
        )
    } else {
        match daemon.vault.unlock_start() {
            UnlockStart::Done(count) => StepModel::Reply(Ok(unlocked_value(count))),
            UnlockStart::Busy => StepModel::Reply(Err(IpcErrorModel::Busy)),
            UnlockStart::Begin => StepModel::Unlock(
                UnlockPlanModel {
                    password,
                    path: daemon.active_vault().path,
                    keyfile: match text_member(args, "keyfile"@) {
                        Some(keyfile) if inline => Some(encode_utf8(keyfile)),
                        _ => daemon.active_vault().keyfile,
                    },
                },
            ),
        }
    }
}

/// What `list` comes to.
pub open spec fn list_result(vault: VaultModel, args: JsonValue) -> Result<
    JsonValue,
    IpcErrorModel,
> {
    let query = match text_member(args, "query"@) {
        Some(query) => query,
        None => Seq::empty(),
    };
    let limit = match uint_member(args, "limit"@) {
        Some(limit) => limit as nat,
        None => 200,
    };
    match vault.listing(query, limit) {
        Ok(list) => Ok(entries_value(list)),
        Err(err) => Err(err),
    }
}

/// What `get` comes to.
pub open spec fn get_result(vault: VaultModel, args: JsonValue) -> Result<
    JsonValue,
    IpcErrorModel,
> {
    match required_text(args, "uuid"@) {
        Ok(uuid) => match vault.fields(uuid, texts_member(args, "fields"@)) {
            Ok(fields) => Ok(fields_value(uuid, fields)),
            Err(err) => Err(err),
        },
        Err(err) => Err(err),
    }
}

/// How long what `copy` puts on the clipboard stays there, in milliseconds.
pub open spec fn wanted_clear(config: ConfigModel, args: JsonValue) -> nat {
    match uint_member(args, "clearAfterMs"@) {
        Some(millis) => millis as nat,
        None => config.clipboard_clear,
    }
}

/// What `copy` comes to.
pub open spec fn copy_plan(
    config: ConfigModel,
    vault: VaultModel,
    args: JsonValue,
    now: Result<u64, Seq<char>>,
) -> Result<CopyPlanModel, IpcErrorModel> {
    match required_text(args, "uuid"@) {
        Ok(uuid) => match required_text(args, "field"@) {
            Ok(name) => match field_named(name) {
                Ok(field) => match vault.secret(uuid, field, now) {
                    Ok(value) => Ok(
                        CopyPlanModel {
                            uuid,
                            field,
                            value,
                            clear_after: wanted_clear(config, args),
                        },
                    ),
                    Err(err) => Err(err),
                },
                Err(err) => Err(err),
            },
            Err(err) => Err(err),
        },
        Err(err) => Err(err),
    }
}

/// The sequence that `type` is to type.
pub open spec fn wanted_sequence(args: JsonValue) -> Seq<char> {
    match text_member(args, "sequence"@) {
        Some(sequence) => sequence,
        None => match text_member(args, "field"@) {
            Some(field) => field,
            None => "password"@,
        },
    }
}

/// What `type` comes to.
pub open spec fn type_plan(
    vault: VaultModel,
    args: JsonValue,
    now: Result<u64, Seq<char>>,
) -> Result<Seq<TypeTokenModel>, IpcErrorModel> {
    match required_text(args, "uuid"@) {
        Ok(uuid) => vault.steps(uuid, wanted_sequence(args), now),
        Err(err) => Err(err),
    }
}

/// What `totp` comes to.
pub open spec fn totp_result(
    vault: VaultModel,
    args: JsonValue,
    now: Result<u64, Seq<char>>,
) -> Result<JsonValue, IpcErrorModel> {
    match required_text(args, "uuid"@) {
        Ok(uuid) => vault.totp(uuid, now),
        Err(err) => Err(err),
    }
}

/// What a request comes to, if the daemon is in a given state.
pub open spec fn step_for(
    daemon: DaemonModel,
    request: RequestModel,
    now: MomentModel,
) -> StepModel {
    let op = request.op;
    let args = request.args;
    if op == "hello"@ {
        StepModel::Reply(Ok(hello_value(daemon)))
    } else if op == "status"@ {
        StepModel::Reply(Ok(status_value(daemon, now.uptime)))
    } else if op == "unlock"@ {
        unlock_step(daemon, args)
    } else if op == "lock"@ {
        StepModel::Reply(Ok(flag_value("locked"@)))
    } else if op == "list"@ {
        StepModel::Reply(list_result(daemon.vault, args))
    } else if op == "get"@ {
        StepModel::Reply(get_result(daemon.vault, args))
    } else if op == "copy"@ {
        match copy_plan(daemon.config, daemon.vault, args, now.unix) {
            Ok(plan) => StepModel::Copy(plan),
            Err(err) => StepModel::Reply(Err(err)),
        }
    } else if op == "type"@ {
        match type_plan(daemon.vault, args, now.unix) {
            Ok(tokens) => StepModel::Type(tokens),
            Err(err) => StepModel::Reply(Err(err)),
        }
    } else if op == "totp"@ {
        StepModel::Reply(totp_result(daemon.vault, args, now.unix))
    } else if op == "subscribe"@ {
        StepModel::Reply(Ok(flag_value("subscribed"@)))
    } else {
        StepModel::Reply(Err(IpcErrorModel::BadRequest("unknown op: "@ + op)))
    }
}

/// The state that a request leaves behind at once.
pub open spec fn state_after(daemon: DaemonModel, request: RequestModel) -> DaemonModel {
    if request.op == "unlock"@ && unlock_step(daemon, request.args) is Unlock {
        daemon.with_vault(VaultModel::Unlocking)
    } else if request.op == "lock"@ {
        daemon.locked(LockReason::Manual)
    } else {
        daemon
    }
}

/// The text of an argument that must be there.
pub fn require_str<'a>(req: &'a Request, key: &str) -> (text: Result<&'a str, IpcError>)
    ensures
        match text {
            Ok(text) => required_text(req@.args, key@) == Ok::<Seq<char>, IpcErrorModel>(text@),
            Err(err) => required_text(req@.args, key@) == Err::<Seq<char>, IpcErrorModel>(err@),
        },
{
    match req.args.get_text(key) {
        Some(text) => Ok(text),
        None => Err(IpcError::BadRequest(join3("missing string field `", key, "`"))),
    }
}

/// An answer that says one thing only.
fn flag_json(name: &str) -> (json: Json)
    ensures
        json@ == flag_value(name@),
{
    let mut object: JsonObject = JsonObject::new();
    object.insert(name, Json::truth(true));
    Json::object(object)
}

/// The answer to `unlock` once the vault is unlocked.
fn unlocked_json(count: usize) -> (json: Json)
    ensures
        json@ == unlocked_value(count as nat),
{
    let mut object: JsonObject = JsonObject::new();
    object.insert("unlocked", Json::truth(true));
    object.insert("entryCount", Json::uint(count as u64));
    Json::object(object)
}

/// The answer to `list`.
fn entries_json(list: &Vec<EntryMeta>) -> (json: Json)
    ensures
        json@ == entries_value(meta_models(list@)),
{
    let mut items: Vec<Json> = Vec::new();
    let mut i: usize = 0;
    while i < list.len()
        invariant
            i <= list.len(),
            items.len() == i,
            forall|k: int| 0 <= k < i ==> (#[trigger] items@[k])@ == meta_value(list@[k]@),
        decreases list.len() - i,
    {
        items.push(list[i].to_json());
        i = i + 1;
    }
    assert(values(items@) =~= meta_models(list@).map_values(
        |meta: EntryMetaModel| meta_value(meta),
    ));
    let mut object: JsonObject = JsonObject::new();
    object.insert("entries", Json::array(items));
    Json::object(object)
}

/// The answer to `copy` once the secret is on the clipboard.
fn copied_json(plan: &CopyPlan) -> (json: Json)
    ensures
        json@ == copied_value(plan@),
{
    let millis: u128 = plan.clear_after.as_millis() % 0x1_0000_0000_0000_0000;
    let field: String = plan.field.as_str();
    let mut object: JsonObject = JsonObject::new();
    object.insert("copied", Json::truth(true));
    object.insert("field", Json::text(field.as_str()));
    object.insert("clearsInMs", Json::uint(millis as u64));
    Json::object(object)
}

/// What a line says.
pub open spec fn parsed_model(parsed: Result<Request, String>) -> Result<RequestModel, Seq<char>> {
    match parsed {
        Ok(request) => Ok(request@),
        Err(why) => Err(why@),
    }
}

impl Daemon {
    /// A daemon that has just started.
    pub fn new(config: Config) -> (daemon: Daemon)
        requires
            config@.vaults.len() > 0,
        ensures
            daemon@ == (DaemonModel {
                config: config@,
                vault: VaultModel::Locked,
                activity: 0,
                clipboard: 0,
                outbox: Seq::empty(),
            }),
    {
        let vault: VaultState = VaultState::locked(&config);
        let outbox: Vec<Event> = Vec::new();
        assert(event_models(outbox@) =~= Seq::<EventModel>::empty());
        Daemon {
            served: Served { config },
            vault,
            activity: ActivityClock::new(),
            clipboard: Clipboard::new(),
            outbox,
        }
    }

    /// The settings.
    pub fn config(&self) -> (config: &Config)
        ensures
            config@ == self@.config,
    {
        &self.served.config
    }

    /// The database that is served.
    pub fn active_vault(&self) -> (vault: &VaultConfig)
        ensures
            self@.config.vaults.len() > 0,
            vault@ == self@.active_vault(),
    {
        self.served.vault()
    }

    /// The state of the vault.
    pub fn vault(&self) -> (vault: &VaultState)
        ensures
            vault@ == self@.vault,
    {
        &self.vault
    }

    /// Puts an event into the outbox.
    pub fn emit(&mut self, event: Event)
        ensures
            final(self)@ == old(self)@.emitted(event@),
    {
        let ghost before = event_models(self.outbox@);
        let ghost model = event@;
        self.outbox.push(event);
        assert(event_models(self.outbox@) =~= before.push(model));
    }

    /// Takes the events out of the outbox, in the order in which they were put
    /// there.
    pub fn take_events(&mut self) -> (events: Vec<Event>)
        ensures
            event_models(events@) == old(self)@.outbox,
            final(self)@ == (DaemonModel { outbox: Seq::empty(), ..old(self)@ }),
    {
        let mut events: Vec<Event> = Vec::new();
        std::mem::swap(&mut events, &mut self.outbox);
        assert(event_models(self.outbox@) =~= Seq::<EventModel>::empty());
        events
    }

    /// The answer to `hello`.
    fn hello_json(&self) -> (json: Json)
        ensures
            json@ == hello_value(self@),
    {
        let mut capabilities: Vec<Json> = Vec::new();
        capabilities.push(Json::text("copy"));
        capabilities.push(Json::text("type"));
        capabilities.push(Json::text("totp"));
        capabilities.push(Json::text("pinentry"));
        assert(values(capabilities@) =~= seq![
            JsonValue::Text("copy"@),
            JsonValue::Text("type"@),
            JsonValue::Text("totp"@),
            JsonValue::Text("pinentry"@),
        ]);
        let mut object: JsonObject = JsonObject::new();
        object.insert("daemonVersion", Json::text("0.1.0"));
        object.insert("protocol", Json::uint(PROTOCOL_VERSION as u64));
        let path: String = self.served.vault().path.display();
        object.insert("vaultPath", Json::text(path.as_str()));
        object.insert("locked", Json::truth(self.vault.is_locked()));
        object.insert("capabilities", Json::array(capabilities));
        Json::object(object)
    }

    /// The answer to `status` at the time `now`.
    fn status_json(&self, now: u64) -> (json: Json)
        ensures
            json@ == status_value(self@, now),
    {
        let mut object: JsonObject = JsonObject::new();
        object.insert("locked", Json::truth(self.vault.is_locked()));
        object.insert("entryCount", Json::uint(self.vault.entry_count() as u64));
        let path: String = self.served.vault().path.display();
        object.insert("vaultPath", Json::text(path.as_str()));
        match self.activity.remaining_lock_secs(&self.served.config, now) {
            Some(secs) => object.insert("idleLockInSec", Json::uint(secs)),
            None => object.insert("idleLockInSec", Json::null()),
        }
        Json::object(object)
    }

    /// What `unlock` comes to.
    fn begin_unlock(&mut self, args: &Json) -> (step: Step)
        ensures
            step@ == unlock_step(old(self)@, args@),
            final(self)@ == if unlock_step(old(self)@, args@) is Unlock {
                old(self)@.with_vault(VaultModel::Unlocking)
            } else {
                old(self)@
            },
    {
        let password: Option<&str> = args.get_text("password");
        let keyfile: Option<&str> = args.get_text("keyfile");
        if password.is_some() && !self.served.config.allow_inline_unlock {
            return Step::Reply(
                Err(
                    IpcError::Unsupported(
                        "inline-password unlock is disabled; enable allow_inline_unlock or use pinentry".to_owned(),
                    ),
                ),
            );
        }
        match self.vault.unlock() {
            Ok(Some(count)) => return Step::Reply(Ok(unlocked_json(count))),
            Ok(None) => {},
            Err(err) => return Step::Reply(Err(err)),
        }
        let password: Option<Secret> = match password {
            Some(password) => Some(Secret::new(password.to_owned())),
            None => None,
        };
        let keyfile: Option<UnixPath> = match keyfile {
            Some(keyfile) => if self.served.config.allow_inline_unlock {
                Some(UnixPath::from_text(keyfile))
            } else {
                duplicate_path(&self.served.vault().keyfile)
            },
            None => duplicate_path(&self.served.vault().keyfile),
        };
        let path: UnixPath = self.served.vault().path.duplicate();
        Step::Unlock(UnlockPlan { password, path, keyfile })
    }

    /// Locks the vault.
    pub fn lock(&mut self, reason: LockReason)
        ensures
            final(self)@ == old(self)@.locked(reason),
    {
        if let Some(event) = self.vault.lock_now(reason) {
            self.emit(event);
        }
    }

    /// What `list` comes to.
    fn list_entries(&self, args: &Json) -> (result: Result<Json, IpcError>)
        ensures
            outcome(result) == list_result(self@.vault, args@),
    {
        proof {
            reveal_strlit("");
        }
        let query: &str = match args.get_text("query") {
            Some(query) => query,
            None => "",
        };
        assert(""@ =~= Seq::<char>::empty());
        let limit: u64 = match args.get_uint("limit") {
            Some(limit) => limit,
            None => 200,
        };
        match self.vault.list(query, limit) {
            Ok(list) => Ok(entries_json(&list)),
            Err(err) => Err(err),
        }
    }

    /// What `get` comes to.
    fn get_entry(&self, req: &Request) -> (result: Result<Json, IpcError>)
        ensures
            outcome(result) == get_result(self@.vault, req@.args),
    {
        let uuid: &str = match require_str(req, "uuid") {
            Ok(uuid) => uuid,
            Err(err) => return Err(err),
        };
        let names: Vec<String> = req.args.get_texts("fields");
        match self.vault.get_fields(uuid, &names) {
            Ok(fields) => {
                let mut object: JsonObject = JsonObject::new();
                object.insert("uuid", Json::text(uuid));
                object.insert("fields", fields);
                Ok(Json::object(object))
            },
            Err(err) => Err(err),
        }
    }

    /// What `copy` comes to.
    fn plan_copy(&self, req: &Request, now: &Moment) -> (plan: Result<CopyPlan, IpcError>)
        ensures
            outcome(plan) == copy_plan(self@.config, self@.vault, req@.args, now@.unix),
    {
        let uuid: &str = match require_str(req, "uuid") {
            Ok(uuid) => uuid,
            Err(err) => return Err(err),
        };
        let name: &str = match require_str(req, "field") {
            Ok(name) => name,
            Err(err) => return Err(err),
        };
        let field: CopyField = match CopyField::from_str(name) {
            Ok(field) => field,
            Err(err) => return Err(err),
        };
        let clear_after: Duration = match req.args.get_uint("clearAfterMs") {
            Some(millis) => Duration::from_millis(millis),
            None => self.served.config.clipboard_clear,
        };
        match self.vault.secret_for(uuid, &field, &now.unix) {
            Ok(value) => Ok(CopyPlan { uuid: uuid.to_owned(), field, value, clear_after }),
            Err(err) => Err(err),
        }
    }

    /// What `type` comes to.
    fn plan_type(&self, req: &Request, now: &Moment) -> (plan: Result<Vec<TypeToken>, IpcError>)
        ensures
            match plan {
                Ok(tokens) => type_plan(self@.vault, req@.args, now@.unix) == Ok::<
                    Seq<TypeTokenModel>,
                    IpcErrorModel,
                >(token_models(tokens@)),
                Err(err) => type_plan(self@.vault, req@.args, now@.unix) == Err::<
                    Seq<TypeTokenModel>,
                    IpcErrorModel,
                >(err@),
            },
    {
        let uuid: &str = match require_str(req, "uuid") {
            Ok(uuid) => uuid,
            Err(err) => return Err(err),
        };
        let sequence: &str = match req.args.get_text("sequence") {
            Some(sequence) => sequence,
            None => match req.args.get_text("field") {
                Some(field) => field,
                None => "password",
            },
        };
        self.vault.resolve_type_sequence(uuid, sequence, &now.unix)
    }

    /// What `totp` comes to.
    fn describe_totp(&self, req: &Request, now: &Moment) -> (result: Result<Json, IpcError>)
        ensures
            outcome(result) == totp_result(self@.vault, req@.args, now@.unix),
    {
        match require_str(req, "uuid") {
            Ok(uuid) => self.vault.totp_meta(uuid, &now.unix),
            Err(err) => Err(err),
        }
    }

    /// Carries out a request as far as nothing from outside is needed.
    /// `subscribed` tells whether the connection gets events.
    pub fn dispatch(&mut self, req: &Request, now: &Moment, subscribed: &mut bool) -> (step: Step)
        ensures
            step@ == step_for(old(self)@, req@, now@),
            final(self)@ == state_after(old(self)@, req@),
            *final(subscribed) == (*old(subscribed) || req@.op == "subscribe"@),
    {
        proof {
            lemma_op_names_differ();
        }
        let op: &str = req.op.as_str();
        if same_text(op, "hello") {
            Step::Reply(Ok(self.hello_json()))
        } else if same_text(op, "status") {
            Step::Reply(Ok(self.status_json(now.uptime)))
        } else if same_text(op, "unlock") {
            self.begin_unlock(&req.args)
        } else if same_text(op, "lock") {
            self.lock(LockReason::Manual);
            Step::Reply(Ok(flag_json("locked")))
        } else if same_text(op, "list") {
            Step::Reply(self.list_entries(&req.args))
        } else if same_text(op, "get") {
            Step::Reply(self.get_entry(req))
        } else if same_text(op, "copy") {
            match self.plan_copy(req, now) {
                Ok(plan) => Step::Copy(plan),
                Err(err) => Step::Reply(Err(err)),
            }
        } else if same_text(op, "type") {
            match self.plan_type(req, now) {
                Ok(tokens) => Step::Type(tokens),
                Err(err) => Step::Reply(Err(err)),
            }
        } else if same_text(op, "totp") {
            Step::Reply(self.describe_totp(req, now))
        } else if same_text(op, "subscribe") {
            *subscribed = true;
            Step::Reply(Ok(flag_json("subscribed")))
        } else {
            Step::Reply(Err(IpcError::BadRequest(join2("unknown op: ", op))))
        }
    }

    /// Handles one line of a connection: `parsed` is the request in it, or why
    /// there is none. Gives the identifier to answer under and what the request
    /// comes to.
    pub fn handle_line(
        &mut self,
        parsed: Result<Request, String>,
        now: &Moment,
        subscribed: &mut bool,
    ) -> (handled: (Option<i64>, Step))
        ensures
            match parsed {
                Ok(request) => {
                    let before = old(self)@.touched(now@.uptime);
                    &&& handled.0 == request.id
                    &&& handled.1@ == step_for(before, request@, now@)
                    &&& final(self)@ == state_after(before, request@)
                    &&& *final(subscribed) == (*old(subscribed) || request@.op == "subscribe"@)
                },
                Err(why) => {
                    &&& handled.0 is None
                    &&& handled.1@ == StepModel::Reply(
                        Err(IpcErrorModel::BadRequest("invalid JSON: "@ + why@)),
                    )
                    &&& final(self)@ == old(self)@
                    &&& *final(subscribed) == *old(subscribed)
                },
            },
            handled.1@ == old(self)@.line_step(parsed_model(parsed), now@),
            final(self)@ == old(self)@.after_line(parsed_model(parsed), now@),
    {
        match parsed {
            Ok(request) => {
                self.activity.touch(now.uptime);
                let id: Option<i64> = request.id;
                let step: Step = self.dispatch(&request, now, subscribed);
                (id, step)
            },
            Err(why) => (
                None,
                Step::Reply(Err(IpcError::BadRequest(join2("invalid JSON: ", why.as_str())))),
            ),
        }
    }
}

// ---------------------------------------------------------------- outcomes

/// The answer to `unlock` once the attempt has come to an end.
pub open spec fn unlock_answer(attempt: UnlockOutcomeModel) -> Result<JsonValue, IpcErrorModel> {
    match attempt.entries() {
        Ok(entries) => Ok(unlocked_value(entries.len())),
        Err(err) => Err(err),
    }
}

/// The state once an attempt to unlock has come to an end: a success counts as
/// activity and is announced.
pub open spec fn unlock_finished(
    daemon: DaemonModel,
    attempt: UnlockOutcomeModel,
    now: u64,
) -> DaemonModel {
    match attempt.entries() {
        Ok(entries) => daemon.with_vault(VaultModel::Unlocked(entries)).touched(now).emitted(
            EventModel::Unlocked { entry_count: entries.len() },
        ),
        Err(_) => daemon.with_vault(VaultModel::Locked),
    }
}

/// The answer to `copy` once the clipboard has been tried.
pub open spec fn copy_answer(plan: CopyPlanModel, copied: bool) -> Result<
    JsonValue,
    IpcErrorModel,
> {
    if copied {
        Ok(copied_value(plan))
    } else {
        Err(IpcErrorModel::IoError("wl-copy failed"@))
    }
}

/// The answer to `type` once the typing has been tried.
pub open spec fn type_answer(typed: TypeOutcomeModel) -> Result<JsonValue, IpcErrorModel> {
    match typed.error() {
        Some(err) => Err(err),
        None => Ok(flag_value("typed"@)),
    }
}

/// An operation that has to see the vault.
pub open spec fn uses_vault(op: Seq<char>) -> bool {
    ||| op == "hello"@
    ||| op == "status"@
    ||| op == "lock"@
    ||| op == "list"@
    ||| op == "get"@
    ||| op == "copy"@
    ||| op == "type"@
    ||| op == "totp"@
}

/// The answer to `type` once the typing has been tried.
pub fn finish_type(typed: &TypeOutcome) -> (answer: Result<Json, IpcError>)
    ensures
        outcome(answer) == type_answer(typed@),
{
    match typed.error() {
        Some(err) => Err(err),
        None => Ok(flag_json("typed")),
    }
}

impl Daemon {
    /// Whether a request has to wait for the unlock that is in flight. Another
    /// `unlock` does not: it is answered that the daemon is busy.
    pub fn must_wait(&self, req: &Request) -> (wait: bool)
        ensures
            wait == (self@.vault is Unlocking && uses_vault(req@.op)),
    {
        if !self.vault.is_unlocking() {
            return false;
        }
        let op: &str = req.op.as_str();
        same_text(op, "hello") || same_text(op, "status") || same_text(op, "lock") || same_text(
            op,
            "list",
        ) || same_text(op, "get") || same_text(op, "copy") || same_text(op, "type") || same_text(
            op,
            "totp",
        )
    }

    /// Ends the unlock that is in flight at the time `now`.
    pub fn finish_unlock(&mut self, attempt: UnlockOutcome, now: u64) -> (answer: Result<
        Json,
        IpcError,
    >)
        requires
            old(self)@.vault is Unlocking,
        ensures
            outcome(answer) == unlock_answer(attempt@),
            final(self)@ == unlock_finished(old(self)@, attempt@, now),
    {
        match self.vault.finish_unlock(attempt) {
            Ok(count) => {
                self.activity.touch(now);
                self.emit(Event::Unlocked { entry_count: count });
                Ok(unlocked_json(count))
            },
            Err(err) => Err(err),
        }
    }

    /// Answers a `copy` whose secret has been put on the clipboard, if `copied`,
    /// and schedules the wipe.
    pub fn finish_copy(&mut self, plan: CopyPlan, copied: bool) -> (answer: (
        Result<Json, IpcError>,
        Option<PendingWipe>,
    ))
        ensures
            outcome(answer.0) == copy_answer(plan@, copied),
            wipe_model(answer.1) == if copied {
                scheduled_wipe(
                    next_generation(old(self)@.clipboard),
                    plan@.uuid,
                    plan@.field,
                    plan@.value,
                    plan@.clear_after,
                )
            } else {
                None::<PendingWipeModel>
            },
            final(self)@ == if copied {
                DaemonModel { clipboard: next_generation(old(self)@.clipboard), ..old(self)@ }
            } else {
                old(self)@
            },
            wipe_model(answer.1) == old(self)@.wipe_of(plan@, copied),
            final(self)@ == old(self)@.after_copy(copied),
    {
        if !copied {
            return (Err(IpcError::IoError("wl-copy failed".to_owned())), None);
        }
        let answer: Json = copied_json(&plan);
        let wipe: Option<PendingWipe> = self.clipboard.copy(
            plan.uuid.as_str(),
            &plan.field,
            plan.value,
            plan.clear_after,
        );
        (Ok(answer), wipe)
    }

    /// What a scheduled wipe does when its time has come.
    pub fn wipe_due(&self, wipe: &PendingWipe) -> (step: WipeStep)
        ensures
            step == wipe@.due(self@.clipboard),
    {
        self.clipboard.wipe_due(wipe)
    }

    /// Locks the vault of its own accord, if it is unlocked.
    pub fn auto_lock(&mut self, reason: LockReason)
        ensures
            final(self)@ == old(self)@.auto_locked(reason),
    {
        if !self.vault.is_locked() {
            self.lock(reason);
        }
    }

    /// Heeds a signal of the login manager.
    pub fn heed(&mut self, signal: SessionSignal)
        ensures
            final(self)@ == old(self)@.heeded(signal),
    {
        match signal {
            SessionSignal::Lock => self.auto_lock(LockReason::SessionLock),
            SessionSignal::PrepareForSleep(about) => if sleep_lock_due(about) {
                self.auto_lock(LockReason::Sleep);
            },
        }
    }

    /// Locks the vault if nothing has happened for too long at the time `now`.
    pub fn idle_tick(&mut self, now: u64)
        ensures
            final(self)@ == if idle_lock_due(
                old(self)@.config.idle_lock,
                old(self)@.activity,
                now,
            ) {
                old(self)@.auto_locked(LockReason::Idle)
            } else {
                old(self)@
            },
            final(self)@ == old(self)@.ticked(now),
    {
        if self.activity.lock_due(&self.served.config, now) {
            self.auto_lock(LockReason::Idle);
        }
    }
}

/// No operation has the name of another.
proof fn lemma_op_names_differ()
    ensures
        "unlock"@ != "lock"@,
        "unlock"@ != "hello"@,
        "unlock"@ != "status"@,
        "lock"@ != "hello"@,
        "lock"@ != "status"@,
        "subscribe"@ != "hello"@,
        "subscribe"@ != "status"@,
        "subscribe"@ != "unlock"@,
        "subscribe"@ != "lock"@,
        "subscribe"@ != "list"@,
        "subscribe"@ != "get"@,
        "subscribe"@ != "copy"@,
        "subscribe"@ != "type"@,
        "subscribe"@ != "totp"@,
{
    reveal_strlit("hello");
    reveal_strlit("status");
    reveal_strlit("unlock");
    reveal_strlit("lock");
    reveal_strlit("list");
    reveal_strlit("get");
    reveal_strlit("copy");
    reveal_strlit("type");
    reveal_strlit("totp");
    reveal_strlit("subscribe");
    assert("unlock"@[0] != "status"@[0]);
    assert("hello"@.len() == 5 && "status"@.len() == 6 && "unlock"@.len() == 6);
    assert("lock"@.len() == 4 && "list"@.len() == 4 && "get"@.len() == 3);
    assert("copy"@.len() == 4 && "type"@.len() == 4 && "totp"@.len() == 4);
    assert("subscribe"@.len() == 9);
}

} // verus!
