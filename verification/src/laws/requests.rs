//! What each request comes to, in terms of what it carries and of the entries.

use vstd::prelude::*;
use vstd::utf8::encode_utf8;

use crate::actions::{RunFailureModel, TypeOutcomeModel, WipeStep};
use crate::daemon::{
    copy_answer, state_after, step_for, type_answer, unlock_answer, unlock_finished, uses_vault,
    CopyPlanModel, DaemonModel, MomentModel, StepModel, UnlockPlanModel,
};
use crate::entry::{
    field_named, meta_value, secret_of, steps_for_words, EntryModel, TypeTokenModel,
};
use crate::ipc::{EventModel, IpcErrorModel, LockReason, RequestModel};
use crate::json::{texts_among, JsonValue};
use crate::laws::entries::law_entry_is_the_one_asked_for;
use crate::laws::text::{law_one_word, no_space};
use crate::paths::shown;
use crate::security::{idle_lock_due, lock_seconds, SessionSignal};
use crate::text::{ascii_lower, words};
use crate::vault::{
    change_event, entry_with, listed, public_fields, totp_value, UnlockOutcomeModel, VaultModel,
};

verus! {

// ---------------------------------------------------------------- what a request carries

/// The arguments hold a value under a name.
pub open spec fn says(args: JsonValue, name: Seq<char>, value: JsonValue) -> bool {
    args matches JsonValue::Object(members) && members.contains_key(name) && members[name] == value
}

/// The arguments hold no text under a name.
pub open spec fn has_no_text(args: JsonValue, name: Seq<char>) -> bool {
    args matches JsonValue::Object(members) ==> members.contains_key(name)
        ==> !(members[name] is Text)
}

/// The arguments hold no whole number under a name.
pub open spec fn has_no_number(args: JsonValue, name: Seq<char>) -> bool {
    args matches JsonValue::Object(members) ==> members.contains_key(name)
        ==> !(members[name] is Uint)
}

/// The arguments hold no list under a name.
pub open spec fn has_no_list(args: JsonValue, name: Seq<char>) -> bool {
    args matches JsonValue::Object(members) ==> members.contains_key(name)
        ==> !(members[name] is Array)
}

/// The vault is unlocked, and the first of its entries that has an identifier is
/// this one.
pub open spec fn holds(vault: VaultModel, uuid: Seq<char>, entry: EntryModel) -> bool {
    vault matches VaultModel::Unlocked(entries) && exists|i: int|
        0 <= i < entries.len() && #[trigger] entries[i] == entry && entry.uuid == uuid && forall|
            j: int,
        | 0 <= j < i ==> (#[trigger] entries[j]).uuid != uuid
}

/// The vault is unlocked, and no entry of it has the identifier.
pub open spec fn lacks(vault: VaultModel, uuid: Seq<char>) -> bool {
    vault matches VaultModel::Unlocked(entries) && forall|i: int|
        0 <= i < entries.len() ==> (#[trigger] entries[i]).uuid != uuid
}

/// An entry that the vault holds is the one that is found.
pub proof fn law_entry_is_found(vault: VaultModel, uuid: Seq<char>, entry: EntryModel)
    ensures
        holds(vault, uuid, entry) ==> vault.entry(uuid) == Ok::<EntryModel, IpcErrorModel>(entry),
        lacks(vault, uuid) ==> vault.entry(uuid) == Err::<EntryModel, IpcErrorModel>(
            IpcErrorModel::NotFound(uuid),
        ),
        !(vault is Unlocked) ==> vault.entry(uuid) == Err::<EntryModel, IpcErrorModel>(
            IpcErrorModel::Locked,
        ),
{
    if let VaultModel::Unlocked(entries) = vault {
        law_entry_is_the_one_asked_for(entries, uuid);
        if holds(vault, uuid, entry) {
            let i = choose|i: int|
                0 <= i < entries.len() && #[trigger] entries[i] == entry && entry.uuid == uuid
                    && forall|j: int| 0 <= j < i ==> (#[trigger] entries[j]).uuid != uuid;
            let found = entry_with(entries, uuid).unwrap();
            let k = choose|k: int|
                0 <= k < entries.len() && #[trigger] entries[k] == found && found.uuid == uuid
                    && forall|j: int| 0 <= j < k ==> (#[trigger] entries[j]).uuid != uuid;
            assert(i == k);
        }
    }
}

/// The names of the operations differ.
proof fn lemma_names_differ()
    ensures
        forall|i: int, j: int|
            0 <= i < j < 10 ==> #[trigger] operations()[i] != #[trigger] operations()[j],
        operations()[0] == "hello"@,
        operations()[1] == "status"@,
        operations()[2] == "unlock"@,
        operations()[3] == "lock"@,
        operations()[4] == "list"@,
        operations()[5] == "get"@,
        operations()[6] == "copy"@,
        operations()[7] == "type"@,
        operations()[8] == "totp"@,
        operations()[9] == "subscribe"@,
{
    reveal_strlit("hello");
    reveal_strlit("status");
    reveal_strlit("unlock");
    reveal_strlit("lock");
    reveal_strlit("list");
    reveal_strlit("get");
    reveal_strlit("copy");
    reveal_strlit("type");
    reveal_strlit("totp");
    reveal_strlit("subscribe");
    assert("hello"@.len() == 5 && "status"@.len() == 6 && "unlock"@.len() == 6);
    assert("lock"@.len() == 4 && "list"@.len() == 4 && "get"@.len() == 3 && "copy"@.len() == 4);
    assert("type"@.len() == 4 && "totp"@.len() == 4 && "subscribe"@.len() == 9);
    assert("status"@[0] != "unlock"@[0]);
    assert("lock"@[1] == 'o' && "list"@[1] == 'i' && "copy"@[1] == 'o' && "type"@[1] == 'y'
        && "totp"@[1] == 'o');
    assert("lock"@[0] == 'l' && "copy"@[0] == 'c' && "totp"@[0] == 't');
}

/// The operations.
pub open spec fn operations() -> Seq<Seq<char>> {
    seq![
        "hello"@, "status"@, "unlock"@, "lock"@, "list"@, "get"@, "copy"@, "type"@, "totp"@,
        "subscribe"@,
    ]
}

// ---------------------------------------------------------------- hello, status

/// `hello` tells the versions, the file of the first vault, whether it is locked,
/// and what the daemon can do.
pub proof fn law_hello(daemon: DaemonModel, request: RequestModel, now: MomentModel)
    requires
        request.op == "hello"@,
    ensures
        step_for(daemon, request, now) == StepModel::Reply(
            Ok(
                JsonValue::Object(
                    map![
                        "daemonVersion"@ => JsonValue::Text("0.1.0"@),
                        "protocol"@ => JsonValue::Uint(1),
                        "vaultPath"@ => JsonValue::Text(shown(daemon.config.vaults[0].path)),
                        "locked"@ => JsonValue::Bool(!(daemon.vault is Unlocked)),
                        "capabilities"@ => JsonValue::Array(
                            seq![
                                JsonValue::Text("copy"@),
                                JsonValue::Text("type"@),
                                JsonValue::Text("totp"@),
                                JsonValue::Text("pinentry"@),
                            ],
                        )
                    ],
                ),
            ),
        ),
{
}

/// The seconds that are left until the vault locks are the whole seconds between
/// now and the moment when it has been idle for as long as the settings allow. That
/// moment is when it is due.
pub proof fn law_seconds_until_lock(limit: nat, last: u64, now: u64)
    requires
        limit / 1000 <= u64::MAX,
    ensures
        lock_seconds(Some(limit), last, now) matches Some(left) && {
            &&& last <= now <= last + limit ==> now + 1000 * left <= last + limit < now + 1000
                * left + 1000
            &&& now < last ==> 1000 * left <= limit < 1000 * left + 1000
            &&& last + limit < now ==> left == 0
        },
        last <= now ==> (idle_lock_due(Some(limit), last, now) <==> last + limit <= now),
        now < last ==> (idle_lock_due(Some(limit), last, now) <==> limit == 0),
        lock_seconds(None, last, now) is None,
        !idle_lock_due(None, last, now),
{
    if last <= now <= last + limit {
        let left = limit - (now - last);
        assert(left / 1000 <= (limit as int) / 1000) by (nonlinear_arith)
            requires
                0 <= left <= limit,
        ;
    }
}

/// `status` tells whether the vault is locked, how many entries can be asked for,
/// the file, and in how many seconds it locks.
pub proof fn law_status(daemon: DaemonModel, request: RequestModel, now: MomentModel)
    requires
        request.op == "status"@,
    ensures
        step_for(daemon, request, now) == StepModel::Reply(
            Ok(
                JsonValue::Object(
                    map![
                        "locked"@ => JsonValue::Bool(!(daemon.vault is Unlocked)),
                        "entryCount"@ => JsonValue::Uint(match daemon.vault {
                            VaultModel::Unlocked(entries) => entries.len() as u64,
                            _ => 0u64,
                        }),
                        "vaultPath"@ => JsonValue::Text(shown(daemon.config.vaults[0].path)),
                        "idleLockInSec"@ => match lock_seconds(
                            daemon.config.idle_lock,
                            daemon.activity,
                            now.uptime,
                        ) {
                            Some(left) => JsonValue::Uint(left),
                            None => JsonValue::Null,
                        }
                    ],
                ),
            ),
        ),
{
    lemma_names_differ();
    assert(operations()[0] != operations()[1]);
}

// ---------------------------------------------------------------- unlock, lock

/// `unlock` with a password is refused unless the settings allow it. Otherwise a
/// vault that is unlocked stays so, an unlock in flight turns it away, and a locked
/// vault is unlocked: with the password if there is one, and with the key file of
/// the settings unless the request may and does name another.
pub proof fn law_unlock(daemon: DaemonModel, request: RequestModel, now: MomentModel)
    requires
        request.op == "unlock"@,
    ensures
        !has_no_text(request.args, "password"@) && !daemon.config.allow_inline_unlock ==> {
            &&& step_for(daemon, request, now) == StepModel::Reply(
                Err(
                    IpcErrorModel::Unsupported(
                        "inline-password unlock is disabled; enable allow_inline_unlock or use pinentry"@,
                    ),
                ),
            )
            &&& state_after(daemon, request) == daemon
        },
        has_no_text(request.args, "password"@) || daemon.config.allow_inline_unlock ==> {
            match daemon.vault {
                VaultModel::Unlocked(entries) => {
                    &&& step_for(daemon, request, now) == StepModel::Reply(
                        Ok(
                            JsonValue::Object(
                                map![
                                    "unlocked"@ => JsonValue::Bool(true),
                                    "entryCount"@ => JsonValue::Uint(entries.len() as u64)
                                ],
                            ),
                        ),
                    )
                    &&& state_after(daemon, request) == daemon
                },
                VaultModel::Unlocking => {
                    &&& step_for(daemon, request, now) == StepModel::Reply(
                        Err(IpcErrorModel::Busy),
                    )
                    &&& state_after(daemon, request) == daemon
                },
                VaultModel::Locked => {
                    &&& step_for(daemon, request, now) is Unlock
                    &&& state_after(daemon, request) == DaemonModel {
                        vault: VaultModel::Unlocking,
                        ..daemon
                    }
                },
            }
        },
{
    lemma_names_differ();
    assert(operations()[0] != operations()[2]);
    assert(operations()[1] != operations()[2]);
    assert(operations()[2] != operations()[3]);
}

/// What an unlock is done with.
pub proof fn law_unlock_plan(
    daemon: DaemonModel,
    request: RequestModel,
    now: MomentModel,
    plan: UnlockPlanModel,
    text: Seq<char>,
)
    requires
        request.op == "unlock"@,
        step_for(daemon, request, now) == StepModel::Unlock(plan),
    ensures
        plan.path == daemon.config.vaults[0].path,
        has_no_text(request.args, "password"@) ==> plan.password is None,
        says(request.args, "password"@, JsonValue::Text(text)) ==> plan.password == Some(text),
        has_no_text(request.args, "keyfile"@) || !daemon.config.allow_inline_unlock ==> plan.keyfile
            == daemon.config.vaults[0].keyfile,
        says(request.args, "keyfile"@, JsonValue::Text(text)) && daemon.config.allow_inline_unlock
            ==> plan.keyfile == Some(encode_utf8(text)),
{
    lemma_names_differ();
    assert(operations()[0] != operations()[2]);
    assert(operations()[1] != operations()[2]);
}

/// Once an attempt to unlock has come to an end the vault is unlocked with the
/// entries that were read, which counts as activity and is announced, or it is
/// locked, which does not and is not.
pub proof fn law_unlock_ends(daemon: DaemonModel, attempt: UnlockOutcomeModel, now: u64)
    ensures
        match attempt {
            UnlockOutcomeModel::Opened(entries) => {
                &&& unlock_answer(attempt) == Ok::<JsonValue, IpcErrorModel>(
                    JsonValue::Object(
                        map![
                            "unlocked"@ => JsonValue::Bool(true),
                            "entryCount"@ => JsonValue::Uint(entries.len() as u64)
                        ],
                    ),
                )
                &&& unlock_finished(daemon, attempt, now) == DaemonModel {
                    config: daemon.config,
                    vault: VaultModel::Unlocked(entries),
                    activity: now,
                    clipboard: daemon.clipboard,
                    outbox: daemon.outbox + seq![
                        EventModel::Unlocked { entry_count: entries.len() },
                    ],
                }
            },
            UnlockOutcomeModel::PromptFailed(why) => unlock_answer(attempt) == Err::<
                JsonValue,
                IpcErrorModel,
            >(IpcErrorModel::IoError("pinentry: "@ + why)),
            UnlockOutcomeModel::WrongKey => unlock_answer(attempt) == Err::<
                JsonValue,
                IpcErrorModel,
            >(IpcErrorModel::AuthFailed),
            UnlockOutcomeModel::Failed(why) => unlock_answer(attempt) == Err::<
                JsonValue,
                IpcErrorModel,
            >(IpcErrorModel::VaultError(why)),
        },
        !(attempt is Opened) ==> unlock_finished(daemon, attempt, now) == (DaemonModel {
            vault: VaultModel::Locked,
            ..daemon
        }),
        match attempt {
            UnlockOutcomeModel::Opened(entries) => VaultModel::after_unlock(attempt)
                == VaultModel::Unlocked(entries),
            _ => VaultModel::after_unlock(attempt) == VaultModel::Locked,
        },
{
    if let UnlockOutcomeModel::Opened(entries) = attempt {
        let event = EventModel::Unlocked { entry_count: entries.len() };
        assert(daemon.outbox.push(event) =~= daemon.outbox + seq![event]);
    }
}

/// `lock` locks the vault at once and says so, and it is announced as asked for,
/// unless the vault was locked before.
pub proof fn law_lock(daemon: DaemonModel, request: RequestModel, now: MomentModel)
    requires
        request.op == "lock"@,
    ensures
        step_for(daemon, request, now) == StepModel::Reply(
            Ok(JsonValue::Object(map!["locked"@ => JsonValue::Bool(true)])),
        ),
        state_after(daemon, request) == (DaemonModel {
            config: daemon.config,
            vault: VaultModel::Locked,
            activity: daemon.activity,
            clipboard: daemon.clipboard,
            outbox: if daemon.vault is Locked {
                daemon.outbox
            } else {
                daemon.outbox + seq![EventModel::Locked { reason: LockReason::Manual }]
            },
        }),
{
    lemma_names_differ();
    assert(operations()[0] != operations()[3]);
    assert(operations()[1] != operations()[3]);
    assert(operations()[2] != operations()[3]);
    let event = EventModel::Locked { reason: LockReason::Manual };
    assert(daemon.outbox.push(event) =~= daemon.outbox + seq![event]);
}

/// A lock that nobody asked for happens to an unlocked vault only, and is
/// announced with its reason. Nothing but the vault and the announcement changes.
pub proof fn law_automatic_lock(daemon: DaemonModel, reason: LockReason)
    ensures
        daemon.auto_locked(reason) == if daemon.vault is Unlocked {
            DaemonModel {
                config: daemon.config,
                vault: VaultModel::Locked,
                activity: daemon.activity,
                clipboard: daemon.clipboard,
                outbox: daemon.outbox + seq![EventModel::Locked { reason }],
            }
        } else {
            daemon
        },
        daemon.heeded(SessionSignal::Lock) == daemon.auto_locked(LockReason::SessionLock),
        daemon.heeded(SessionSignal::PrepareForSleep(Some(true))) == daemon.auto_locked(
            LockReason::Sleep,
        ),
        daemon.heeded(SessionSignal::PrepareForSleep(None)) == daemon.auto_locked(
            LockReason::Sleep,
        ),
        daemon.heeded(SessionSignal::PrepareForSleep(Some(false))) == daemon,
{
    let event = EventModel::Locked { reason };
    assert(daemon.outbox.push(event) =~= daemon.outbox + seq![event]);
}

/// The vault locks of its own accord once it is due, with that reason, and not
/// before.
pub proof fn law_idle_lock(daemon: DaemonModel, limit: nat, now: u64)
    requires
        daemon.config.idle_lock == Some(limit),
        daemon.activity <= now,
    ensures
        daemon.ticked(now) == if now >= daemon.activity + limit && daemon.vault is Unlocked {
            DaemonModel {
                config: daemon.config,
                vault: VaultModel::Locked,
                activity: daemon.activity,
                clipboard: daemon.clipboard,
                outbox: daemon.outbox + seq![EventModel::Locked { reason: LockReason::Idle }],
            }
        } else {
            daemon
        },
{
    law_automatic_lock(daemon, LockReason::Idle);
}

/// Without a limit the vault does not lock of its own accord.
pub proof fn law_no_idle_lock_without_limit(daemon: DaemonModel, now: u64)
    requires
        daemon.config.idle_lock is None,
    ensures
        daemon.ticked(now) == daemon,
{
}

/// A request is heard at its time, which counts as activity before it is looked at.
/// A line that is no request is told what is wrong with it, and nothing changes.
pub proof fn law_lines(
    daemon: DaemonModel,
    request: RequestModel,
    why: Seq<char>,
    now: MomentModel,
)
    ensures
        ({
            let before = DaemonModel { activity: now.uptime, ..daemon };
            &&& daemon.line_step(Ok(request), now) == step_for(before, request, now)
            &&& daemon.after_line(Ok(request), now) == state_after(before, request)
        }),
        daemon.after_line(Ok(request), now).activity == now.uptime,
        daemon.line_step(Err(why), now) == StepModel::Reply(
            Err(IpcErrorModel::BadRequest("invalid JSON: "@ + why)),
        ),
        daemon.after_line(Err(why), now) == daemon,
{
}

/// A copy that was made is the latest, and its wipe knows it: the wipe goes on if
/// and only if no copy follows. One that was not made leaves no trace.
pub proof fn law_copies_are_counted(daemon: DaemonModel, plan: CopyPlanModel)
    ensures
        daemon.after_copy(false) == daemon,
        daemon.wipe_of(plan, false) is None,
        daemon.after_copy(true).vault == daemon.vault,
        daemon.after_copy(true).config == daemon.config,
        daemon.after_copy(true).activity == daemon.activity,
        daemon.after_copy(true).outbox == daemon.outbox,
        daemon.after_copy(true).clipboard == if daemon.clipboard == u64::MAX {
            0
        } else {
            daemon.clipboard + 1
        },
        match daemon.wipe_of(plan, true) {
            Some(wipe) => {
                &&& plan.clear_after > 0
                &&& wipe.generation == daemon.after_copy(true).clipboard
                &&& wipe.uuid == plan.uuid
                &&& wipe.field == plan.field.name()
                &&& wipe.value == plan.value
                &&& wipe.after == plan.clear_after
                &&& wipe.due(daemon.after_copy(true).clipboard) == WipeStep::ReadClipboard
                &&& wipe.due(daemon.after_copy(true).after_copy(true).clipboard) == WipeStep::Leave
            },
            None => plan.clear_after == 0,
        },
{
}

/// What happens counts as activity at its time and changes nothing else. What is
/// announced goes behind what was.
pub proof fn law_activity_and_announcements(daemon: DaemonModel, now: u64, event: EventModel)
    ensures
        daemon.touched(now).activity == now,
        daemon.touched(now).vault == daemon.vault,
        daemon.touched(now).config == daemon.config,
        daemon.touched(now).clipboard == daemon.clipboard,
        daemon.touched(now).outbox == daemon.outbox,
        daemon.emitted(event).outbox.last() == event,
        daemon.emitted(event).outbox.drop_last() == daemon.outbox,
        daemon.emitted(event).vault == daemon.vault,
        daemon.emitted(event).activity == daemon.activity,
        daemon.emitted(event).config == daemon.config,
        daemon.emitted(event).clipboard == daemon.clipboard,
        daemon.active_vault() == daemon.config.vaults[0],
        change_event(true) == Some(EventModel::VaultChanged),
        change_event(false) is None,
{
    assert(daemon.outbox.push(event).drop_last() =~= daemon.outbox);
}

// ---------------------------------------------------------------- list

/// `list` shows the metadata of the entries that match, best first, as many as the
/// request allows, 200 if it does not say; without a query all of them match.
pub proof fn law_list(
    daemon: DaemonModel,
    request: RequestModel,
    now: MomentModel,
    entries: Seq<EntryModel>,
    query: Seq<char>,
    limit: u64,
)
    requires
        request.op == "list"@,
        daemon.vault == VaultModel::Unlocked(entries),
        says(request.args, "query"@, JsonValue::Text(query)) || has_no_text(
            request.args,
            "query"@,
        ) && query.len() == 0,
        says(request.args, "limit"@, JsonValue::Uint(limit)) || has_no_number(
            request.args,
            "limit"@,
        ) && limit == 200,
    ensures
        step_for(daemon, request, now) matches StepModel::Reply(Ok(JsonValue::Object(members))) && {
            &&& members.dom() == set!["entries"@]
            &&& members["entries"@] matches JsonValue::Array(items) && {
                &&& items.len() == listed(entries, query, limit as nat).len()
                &&& forall|k: int|
                    0 <= k < items.len() ==> #[trigger] items[k] == meta_value(
                        listed(entries, query, limit as nat)[k],
                    )
            }
        },
{
    lemma_names_differ();
    assert(operations()[0] != operations()[4]);
    assert(operations()[1] != operations()[4]);
    assert(operations()[2] != operations()[4]);
    assert(operations()[3] != operations()[4]);
    assert(query.len() == 0 ==> query =~= Seq::<char>::empty());
    let answer = step_for(daemon, request, now);
    let list = listed(entries, query, limit as nat);
    assert(answer == StepModel::Reply(Ok(crate::daemon::entries_value(list))));
    let members = crate::daemon::entries_value(list)->Object_0;
    assert(members.dom() =~= set!["entries"@]);
}

/// Of a vault that is not unlocked nothing is listed.
pub proof fn law_list_needs_an_unlocked_vault(
    daemon: DaemonModel,
    request: RequestModel,
    now: MomentModel,
)
    requires
        request.op == "list"@,
        !(daemon.vault is Unlocked),
    ensures
        step_for(daemon, request, now) == StepModel::Reply(Err(IpcErrorModel::Locked)),
{
    lemma_names_differ();
    assert(operations()[0] != operations()[4]);
    assert(operations()[1] != operations()[4]);
    assert(operations()[2] != operations()[4]);
    assert(operations()[3] != operations()[4]);
}

// ---------------------------------------------------------------- requests on one entry

/// The texts in a list are those of its items that are texts, in their order.
pub proof fn law_texts_in_a_list(a: Seq<JsonValue>, b: Seq<JsonValue>, item: JsonValue)
    ensures
        texts_among(a + b) == texts_among(a) + texts_among(b),
        texts_among(seq![item]) == match item {
            JsonValue::Text(text) => seq![text],
            _ => Seq::<Seq<char>>::empty(),
        },
    decreases b.len(),
{
    assert(seq![item].drop_last() =~= Seq::<JsonValue>::empty());
    assert(texts_among(Seq::<JsonValue>::empty()) =~= Seq::<Seq<char>>::empty());
    if let JsonValue::Text(text) = item {
        assert(Seq::<Seq<char>>::empty().push(text) =~= seq![text]);
    }
    if b.len() == 0 {
        assert(a + b =~= a);
        assert(texts_among(a) + texts_among(b) =~= texts_among(a));
    } else {
        assert((a + b).drop_last() =~= a + b.drop_last());
        law_texts_in_a_list(a, b.drop_last(), item);
        assert(texts_among(a + b) =~= texts_among(a) + texts_among(b));
    }
}

/// A request on one entry is refused if it does not name the entry, if the vault is
/// not unlocked, and if no entry has the identifier.
pub proof fn law_entry_must_be_there(
    daemon: DaemonModel,
    request: RequestModel,
    now: MomentModel,
    uuid: Seq<char>,
)
    requires
        request.op == "get"@ || request.op == "type"@ || request.op == "totp"@,
    ensures
        has_no_text(request.args, "uuid"@) ==> step_for(daemon, request, now) == StepModel::Reply(
            Err(IpcErrorModel::BadRequest("missing string field `"@ + "uuid"@ + "`"@)),
        ),
        says(request.args, "uuid"@, JsonValue::Text(uuid)) && !(daemon.vault is Unlocked)
            ==> step_for(daemon, request, now) == StepModel::Reply(Err(IpcErrorModel::Locked)),
        says(request.args, "uuid"@, JsonValue::Text(uuid)) && lacks(daemon.vault, uuid)
            ==> step_for(daemon, request, now) == StepModel::Reply(
            Err(IpcErrorModel::NotFound(uuid)),
        ),
{
    lemma_only_its_own(request.op);
    if let VaultModel::Unlocked(entries) = daemon.vault {
        law_entry_is_the_one_asked_for(entries, uuid);
    }
}

/// The operations on one entry have names of their own.
proof fn lemma_only_its_own(op: Seq<char>)
    ensures
        op == "get"@ || op == "copy"@ || op == "type"@ || op == "totp"@ || op == "subscribe"@
            ==> op != "hello"@ && op != "status"@ && op != "unlock"@ && op != "lock"@ && op
            != "list"@,
        op == "copy"@ || op == "type"@ || op == "totp"@ || op == "subscribe"@ ==> op != "get"@,
        op == "type"@ || op == "totp"@ || op == "subscribe"@ ==> op != "copy"@,
        op == "totp"@ || op == "subscribe"@ ==> op != "type"@,
        op == "subscribe"@ ==> op != "totp"@,
{
    lemma_names_differ();
    assert forall|k: int| 5 <= k < 10 && op == #[trigger] operations()[k] implies op != "hello"@
        && op != "status"@ && op != "unlock"@ && op != "lock"@ && op != "list"@ by {
        assert(operations()[0] != operations()[k]);
        assert(operations()[1] != operations()[k]);
        assert(operations()[2] != operations()[k]);
        assert(operations()[3] != operations()[k]);
        assert(operations()[4] != operations()[k]);
    }
    assert forall|k: int| 6 <= k < 10 && op == #[trigger] operations()[k] implies op != "get"@ by {
        assert(operations()[5] != operations()[k]);
    }
    assert forall|k: int| 7 <= k < 10 && op == #[trigger] operations()[k] implies op != "copy"@ by {
        assert(operations()[6] != operations()[k]);
    }
    assert forall|k: int| 8 <= k < 10 && op == #[trigger] operations()[k] implies op != "type"@ by {
        assert(operations()[7] != operations()[k]);
    }
    assert(operations()[8] != operations()[9]);
}

/// `get` answers with the identifier and the fields that were asked for, or with
/// the error of the first that is a secret.
pub proof fn law_get(
    daemon: DaemonModel,
    request: RequestModel,
    now: MomentModel,
    uuid: Seq<char>,
    entry: EntryModel,
    items: Seq<JsonValue>,
)
    requires
        request.op == "get"@,
        says(request.args, "uuid"@, JsonValue::Text(uuid)),
        says(request.args, "fields"@, JsonValue::Array(items)) || has_no_list(
            request.args,
            "fields"@,
        ) && items.len() == 0,
        holds(daemon.vault, uuid, entry),
    ensures
        step_for(daemon, request, now) == match public_fields(entry, texts_among(items)) {
            Ok(members) => StepModel::Reply(
                Ok(
                    JsonValue::Object(
                        map![
                            "uuid"@ => JsonValue::Text(uuid),
                            "fields"@ => JsonValue::Object(members)
                        ],
                    ),
                ),
            ),
            Err(err) => StepModel::Reply(Err(err)),
        },
{
    lemma_only_its_own(request.op);
    law_entry_is_found(daemon.vault, uuid, entry);
    assert(items.len() == 0 ==> texts_among(items) =~= Seq::<Seq<char>>::empty());
}

/// `totp` answers with what is told of the one-time passwords of the entry now.
pub proof fn law_totp(
    daemon: DaemonModel,
    request: RequestModel,
    now: MomentModel,
    uuid: Seq<char>,
    entry: EntryModel,
)
    requires
        request.op == "totp"@,
        says(request.args, "uuid"@, JsonValue::Text(uuid)),
        holds(daemon.vault, uuid, entry),
    ensures
        step_for(daemon, request, now) == StepModel::Reply(Ok(totp_value(entry, now.unix))),
{
    lemma_only_its_own(request.op);
    law_entry_is_found(daemon.vault, uuid, entry);
}

// ---------------------------------------------------------------- copy

/// `copy` puts the text that the field has now on the clipboard, for as many
/// milliseconds as the request says or else the settings.
pub proof fn law_copy(
    daemon: DaemonModel,
    request: RequestModel,
    now: MomentModel,
    uuid: Seq<char>,
    entry: EntryModel,
    name: Seq<char>,
    millis: u64,
)
    requires
        request.op == "copy"@,
        says(request.args, "uuid"@, JsonValue::Text(uuid)),
        says(request.args, "field"@, JsonValue::Text(name)),
        holds(daemon.vault, uuid, entry),
    ensures
        match field_named(name) {
            Err(err) => step_for(daemon, request, now) == StepModel::Reply(Err(err)),
            Ok(field) => match secret_of(entry, field, now.unix) {
                Err(err) => step_for(daemon, request, now) == StepModel::Reply(Err(err)),
                Ok(text) => step_for(daemon, request, now) matches StepModel::Copy(plan) && {
                    &&& plan.uuid == uuid
                    &&& plan.field == field
                    &&& plan.value == text
                    &&& says(request.args, "clearAfterMs"@, JsonValue::Uint(millis))
                        ==> plan.clear_after == millis
                    &&& has_no_number(request.args, "clearAfterMs"@) ==> plan.clear_after
                        == daemon.config.clipboard_clear
                },
            },
        },
{
    lemma_only_its_own(request.op);
    law_entry_is_found(daemon.vault, uuid, entry);
}

/// What is wrong with a copy is told in this order: no identifier, no field, a
/// field without a name, a vault that is not unlocked, an entry that is not there.
pub proof fn law_copy_is_refused(
    daemon: DaemonModel,
    request: RequestModel,
    now: MomentModel,
    uuid: Seq<char>,
    name: Seq<char>,
)
    requires
        request.op == "copy"@,
    ensures
        has_no_text(request.args, "uuid"@) ==> step_for(daemon, request, now) == StepModel::Reply(
            Err(IpcErrorModel::BadRequest("missing string field `"@ + "uuid"@ + "`"@)),
        ),
        says(request.args, "uuid"@, JsonValue::Text(uuid)) && has_no_text(request.args, "field"@)
            ==> step_for(daemon, request, now) == StepModel::Reply(
            Err(IpcErrorModel::BadRequest("missing string field `"@ + "field"@ + "`"@)),
        ),
        says(request.args, "uuid"@, JsonValue::Text(uuid)) && says(
            request.args,
            "field"@,
            JsonValue::Text(name),
        ) ==> {
            &&& name.len() == 0 ==> step_for(daemon, request, now) == StepModel::Reply(
                Err(IpcErrorModel::BadRequest("empty field name"@)),
            )
            &&& name.len() > 0 && !(daemon.vault is Unlocked) ==> step_for(daemon, request, now)
                == StepModel::Reply(Err(IpcErrorModel::Locked))
            &&& name.len() > 0 && lacks(daemon.vault, uuid) ==> step_for(daemon, request, now)
                == StepModel::Reply(Err(IpcErrorModel::NotFound(uuid)))
        },
{
    lemma_only_its_own(request.op);
    if let VaultModel::Unlocked(entries) = daemon.vault {
        law_entry_is_the_one_asked_for(entries, uuid);
    }
    crate::laws::entries::law_field_names(name);
    if name.len() == 0 {
        lemma_no_field_without_a_name(name);
    }
}

/// A field has a name.
proof fn lemma_no_field_without_a_name(name: Seq<char>)
    requires
        name.len() == 0,
    ensures
        field_named(name) is Err,
{
    reveal_strlit("password");
    reveal_strlit("pass");
    reveal_strlit("username");
    reveal_strlit("user");
    reveal_strlit("url");
    reveal_strlit("notes");
    reveal_strlit("note");
    reveal_strlit("totp");
    reveal_strlit("otp");
    reveal_strlit("otp-uri");
    reveal_strlit("otpauth");
    assert(ascii_lower(name).len() == 0);
}

/// A copy that was made is answered with the field and the milliseconds after which
/// it goes, as far as 64 bits hold them; one that was not, with an error.
pub proof fn law_copy_ends(plan: CopyPlanModel, millis: u64)
    requires
        (plan.clear_after - millis) % 0x1_0000_0000_0000_0000 == 0,
    ensures
        copy_answer(plan, true) == Ok::<JsonValue, IpcErrorModel>(
            JsonValue::Object(
                map![
                    "copied"@ => JsonValue::Bool(true),
                    "field"@ => JsonValue::Text(plan.field.name()),
                    "clearsInMs"@ => JsonValue::Uint(millis)
                ],
            ),
        ),
        copy_answer(plan, false) == Err::<JsonValue, IpcErrorModel>(
            IpcErrorModel::IoError("wl-copy failed"@),
        ),
{
}

// ---------------------------------------------------------------- type

/// `type` types what the words of a sequence ask for: of the sequence in the
/// request, else of the field in it, else of the password.
pub proof fn law_type(
    daemon: DaemonModel,
    request: RequestModel,
    now: MomentModel,
    uuid: Seq<char>,
    entry: EntryModel,
    sequence: Seq<char>,
)
    requires
        request.op == "type"@,
        says(request.args, "uuid"@, JsonValue::Text(uuid)),
        holds(daemon.vault, uuid, entry),
        says(request.args, "sequence"@, JsonValue::Text(sequence)) || has_no_text(
            request.args,
            "sequence"@,
        ) && (says(request.args, "field"@, JsonValue::Text(sequence)) || has_no_text(
            request.args,
            "field"@,
        ) && sequence == "password"@),
    ensures
        step_for(daemon, request, now) == match steps_for_words(
            entry,
            words(sequence),
            now.unix,
        ) {
            Ok(tokens) => StepModel::Type(tokens),
            Err(err) => StepModel::Reply(Err(err)),
        },
{
    lemma_only_its_own(request.op);
    law_entry_is_found(daemon.vault, uuid, entry);
}

/// A request that names no sequence and no field types the password, and nothing
/// but the password.
pub proof fn law_password_is_typed_unless_told_otherwise(
    daemon: DaemonModel,
    request: RequestModel,
    now: MomentModel,
    uuid: Seq<char>,
    entry: EntryModel,
)
    requires
        request.op == "type"@,
        says(request.args, "uuid"@, JsonValue::Text(uuid)),
        has_no_text(request.args, "sequence"@),
        has_no_text(request.args, "field"@),
        holds(daemon.vault, uuid, entry),
    ensures
        step_for(daemon, request, now) == match entry.password {
            Some(password) => StepModel::Type(seq![TypeTokenModel::Text(password)]),
            None => StepModel::Reply(Err(IpcErrorModel::NotFound("password"@))),
        },
{
    law_type(daemon, request, now, uuid, entry, "password"@);
    lemma_password_word(entry, "password"@, now.unix);
}

/// The sequence that is only the word `password` types the password.
proof fn lemma_password_word(
    entry: EntryModel,
    word: Seq<char>,
    now: Result<u64, Seq<char>>,
)
    requires
        word == "password"@,
    ensures
        steps_for_words(entry, words(word), now) == match entry.password {
            Some(password) => Ok::<Seq<TypeTokenModel>, IpcErrorModel>(
                seq![TypeTokenModel::Text(password)],
            ),
            None => Err::<Seq<TypeTokenModel>, IpcErrorModel>(
                IpcErrorModel::NotFound("password"@),
            ),
        },
{
    reveal_strlit("password");
    reveal_strlit("tab");
    reveal_strlit("enter");
    reveal_strlit("return");
    reveal_strlit("escape");
    reveal_strlit("esc");
    assert(ascii_lower(word) =~= word);
    assert(word.len() == 8);
    assert(word[0] == 'p' && word[1] == 'a' && word[2] == 's' && word[3] == 's' && word[4] == 'w'
        && word[5] == 'o' && word[6] == 'r' && word[7] == 'd');
    assert(no_space(word));
    law_one_word(word);
    let all = seq![word];
    assert(all.drop_last() =~= Seq::<Seq<char>>::empty());
    assert(steps_for_words(entry, Seq::<Seq<char>>::empty(), now) == Ok::<
        Seq<TypeTokenModel>,
        IpcErrorModel,
    >(Seq::<TypeTokenModel>::empty()));
    crate::laws::entries::law_field_words(entry, word, now);
    if let Some(password) = entry.password {
        assert(Seq::<TypeTokenModel>::empty().push(TypeTokenModel::Text(password)) =~= seq![
            TypeTokenModel::Text(password),
        ]);
    }
}

// ---------------------------------------------------------------- the rest

/// `subscribe` is answered that it is done; an operation of another name is not
/// known.
pub proof fn law_subscribe_and_unknown(
    daemon: DaemonModel,
    request: RequestModel,
    now: MomentModel,
)
    ensures
        request.op == "subscribe"@ ==> step_for(daemon, request, now) == StepModel::Reply(
            Ok(JsonValue::Object(map!["subscribed"@ => JsonValue::Bool(true)])),
        ),
        !operations().contains(request.op) ==> step_for(daemon, request, now) == StepModel::Reply(
            Err(IpcErrorModel::BadRequest("unknown op: "@ + request.op)),
        ),
        request.op != "unlock"@ && request.op != "lock"@ ==> state_after(daemon, request) == daemon,
{
    lemma_only_its_own(request.op);
    lemma_names_differ();
    assert(operations().contains(operations()[0]));
    assert(operations().contains(operations()[1]));
    assert(operations().contains(operations()[2]));
    assert(operations().contains(operations()[3]));
    assert(operations().contains(operations()[4]));
    assert(operations().contains(operations()[5]));
    assert(operations().contains(operations()[6]));
    assert(operations().contains(operations()[7]));
    assert(operations().contains(operations()[8]));
    assert(operations().contains(operations()[9]));
}

/// Typing that went well is answered so, and typing that went wrong with its error.
pub proof fn law_type_ends(typed: TypeOutcomeModel)
    ensures
        typed == TypeOutcomeModel::Typed ==> type_answer(typed) == Ok::<JsonValue, IpcErrorModel>(
            JsonValue::Object(map!["typed"@ => JsonValue::Bool(true)]),
        ),
        typed != TypeOutcomeModel::Typed ==> type_answer(typed) is Err,
        typed == TypeOutcomeModel::NoWtype ==> type_answer(typed) == Err::<
            JsonValue,
            IpcErrorModel,
        >(
            IpcErrorModel::Unsupported(
                "wtype is not installed; install it or use `copy` instead of `type`"@,
            ),
        ),
        typed matches TypeOutcomeModel::TextFailed(failure) ==> type_answer(typed) == Err::<
            JsonValue,
            IpcErrorModel,
        >(
            IpcErrorModel::IoError(
                match failure {
                    RunFailureModel::Spawn => "spawning wtype"@,
                    RunFailureModel::Stdin => "wtype stdin"@,
                    RunFailureModel::Io(why) => why,
                    RunFailureModel::Exit(status) => "wtype exited with "@ + status,
                },
            ),
        ),
{
}

/// While an unlock is in flight every operation waits but `unlock` and `subscribe`,
/// and those that are not known.
pub proof fn law_what_waits_for_an_unlock(op: Seq<char>)
    ensures
        uses_vault(op) <==> (operations().contains(op) && op != "unlock"@ && op != "subscribe"@),
{
    lemma_names_differ();
    assert(operations().contains(operations()[0]));
    assert(operations().contains(operations()[1]));
    assert(operations().contains(operations()[3]));
    assert(operations().contains(operations()[4]));
    assert(operations().contains(operations()[5]));
    assert(operations().contains(operations()[6]));
    assert(operations().contains(operations()[7]));
    assert(operations().contains(operations()[8]));
    lemma_only_its_own(op);
    assert(operations()[0] != operations()[2]);
    assert(operations()[1] != operations()[2]);
    assert(operations()[2] != operations()[3]);
    assert(operations()[2] != operations()[4]);
    if operations().contains(op) {
        let k = choose|k: int| 0 <= k < operations().len() && operations()[k] == op;
        assert(operations().len() == 10);
    }
}

} // verus!
