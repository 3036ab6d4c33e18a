//! What holds of the daemon as a whole, and what each part of it means.

pub mod actions;
pub mod entries;
pub mod models;
pub mod paths;
pub mod requests;
pub mod search;
pub mod settings;
pub mod text;
pub mod wire;

use vstd::prelude::*;
use vstd::set_lib::{lemma_int_range, set_int_range};

use crate::actions::{typing_end, RunFailureModel};
use crate::daemon::{
    copied_value, copy_plan, get_result, list_result, required_text, state_after, step_for,
    totp_result, type_plan, unlock_finished, unlock_step, unlocked_value, wanted_sequence,
    CopyPlanModel, DaemonModel, MomentModel, StepModel,
};
use crate::entry::{
    field_named, meta_of, secret_of, step_for_word, steps_for_words, CopyFieldModel, EntryMetaModel,
    EntryModel, TypeTokenModel,
};
use crate::ipc::{EventModel, IpcErrorModel, LockReason, RequestModel};
use crate::json::{text_member, JsonValue};
use crate::search::{
    in_rank_order, is_ranking, law_ranking_is_unique, matches_query, outranks, ranking, score,
};
use crate::security::SessionSignal;
use crate::totp::period_start;
use crate::vault::{
    entry_with, listed, public_field, public_fields, remaining_seconds, UnlockOutcomeModel,
    VaultModel,
};

verus! {

// ---------------------------------------------------------------- search results

/// A list never has more entries than the limit allows, and a smaller limit shows
/// the front part of what a greater one shows.
pub proof fn law_limit_cuts_list(
    entries: Seq<EntryModel>,
    query: Seq<char>,
    small: nat,
    great: nat,
)
    requires
        small <= great,
    ensures
        listed(entries, query, small).len() <= small,
        listed(entries, query, small) == if listed(entries, query, great).len() <= small {
            listed(entries, query, great)
        } else {
            listed(entries, query, great).take(small as int)
        },
{
    let order = ranking(entries, query);
    let all = order.map_values(|i: int| meta_of(entries[i]));
    if order.len() > small {
        assert(listed(entries, query, small) =~= listed(entries, query, great).take(small as int));
    }
}

/// The empty query matches every entry: without a limit that cuts it short, the
/// list has as many items as the vault has entries.
pub proof fn law_empty_query_lists_all(entries: Seq<EntryModel>, limit: nat)
    requires
        entries.len() <= limit,
    ensures
        listed(entries, Seq::empty(), limit).len() == entries.len(),
        forall|i: int|
            0 <= i < entries.len() ==> listed(entries, Seq::empty(), limit).contains(
                meta_of(#[trigger] entries[i]),
            ),
{
    let query = Seq::<char>::empty();
    let order = ranking(entries, query);
    law_ranking_is_unique(entries, query);
    assert forall|i: int| #[trigger] order.to_set().contains(i) <==> set_int_range(
        0,
        entries.len() as int,
    ).contains(i) by {
        assert(order.contains(i) <==> matches_query(entries, query, entries.len(), i));
    }
    assert(order.to_set() =~= set_int_range(0, entries.len() as int));
    lemma_int_range(0, entries.len() as int);
    order.unique_seq_to_set();
    let list = listed(entries, query, limit);
    assert forall|i: int| 0 <= i < entries.len() implies list.contains(
        meta_of(#[trigger] entries[i]),
    ) by {
        assert(order.contains(i));
        let k = choose|k: int| 0 <= k < order.len() && order[k] == i;
        assert(list[k] == meta_of(entries[i]));
    }
}

/// Metadata is that of an entry that matches a query.
pub open spec fn shows_a_match(
    entries: Seq<EntryModel>,
    query: Seq<char>,
    meta: EntryMetaModel,
) -> bool {
    exists|j: int|
        0 <= j < entries.len() && score(query, #[trigger] entries[j]) is Some && meta == meta_of(
            entries[j],
        )
}

/// What is listed matches, and what matches is listed if the limit leaves room.
pub proof fn law_list_shows_matches(
    entries: Seq<EntryModel>,
    query: Seq<char>,
    limit: nat,
    i: int,
)
    requires
        0 <= i < entries.len(),
        ranking(entries, query).len() <= limit,
    ensures
        score(query, entries[i]) is Some ==> listed(entries, query, limit).contains(
            meta_of(entries[i]),
        ),
        forall|k: int|
            0 <= k < listed(entries, query, limit).len() ==> shows_a_match(
                entries,
                query,
                #[trigger] listed(entries, query, limit)[k],
            ),
{
    let order = ranking(entries, query);
    let list = listed(entries, query, limit);
    law_ranking_is_unique(entries, query);
    if score(query, entries[i]) is Some {
        assert(matches_query(entries, query, entries.len(), i));
        assert(order.contains(i));
        let k = choose|k: int| 0 <= k < order.len() && order[k] == i;
        assert(list[k] == meta_of(entries[i]));
    }
    assert forall|k: int| 0 <= k < list.len() implies shows_a_match(
        entries,
        query,
        #[trigger] list[k],
    ) by {
        let j = order[k];
        assert(order.contains(j));
        assert(matches_query(entries, query, entries.len(), j));
        assert(list[k] == meta_of(entries[j]));
    }
}

// ---------------------------------------------------------------- one-time passwords

/// A code stays valid for at least one second and at most its period.
pub proof fn law_remaining_time_within_period(step: u64, now: Result<u64, Seq<char>>)
    requires
        step > 0,
    ensures
        1 <= remaining_seconds(step, now) <= step,
{
}

/// The remaining time runs out exactly when the period does: so many seconds
/// later the next period begins, and not a second earlier.
pub proof fn law_remaining_time_ends_the_period(step: u64, now: u64, later: u64)
    requires
        step > 0,
        now <= later,
    ensures
        later < now + remaining_seconds(step, Ok(now)) ==> period_start(later, step)
            == period_start(now, step),
        later == now + remaining_seconds(step, Ok(now)) ==> period_start(later, step) == later,
{
    let (s, n, l) = (step as int, now as int, later as int);
    let q = n / s;
    assert(n == q * s + n % s && 0 <= n % s < s) by (nonlinear_arith)
        requires
            s > 0,
            q == n / s,
    ;
    let left = s - n % s;
    if l < n + left {
        assert(l % s == l - q * s) by (nonlinear_arith)
            requires
                s > 0,
                q * s <= l < q * s + s,
        ;
    }
    if l == n + left {
        assert(l == q * s + s);
        assert(l % s == 0) by (nonlinear_arith)
            requires
                s > 0,
                l == q * s + s,
        ;
    }
}

// ---------------------------------------------------------------- locking

/// The arguments of `copy` name a field.
pub open spec fn names_a_field(args: JsonValue) -> bool {
    match required_text(args, "field"@) {
        Ok(name) => field_named(name) is Ok,
        Err(_) => false,
    }
}

/// A request that asks a vault that is not unlocked for entries is answered that
/// the vault is locked, once it says what it is asked for.
pub proof fn law_locked_vault_tells_nothing(
    daemon: DaemonModel,
    request: RequestModel,
    now: MomentModel,
)
    requires
        daemon.vault.is_locked(),
    ensures
        list_result(daemon.vault, request.args) == Err::<JsonValue, IpcErrorModel>(
            IpcErrorModel::Locked,
        ),
        required_text(request.args, "uuid"@) is Ok ==> {
            &&& get_result(daemon.vault, request.args) == Err::<JsonValue, IpcErrorModel>(
                IpcErrorModel::Locked,
            )
            &&& totp_result(daemon.vault, request.args, now.unix) == Err::<
                JsonValue,
                IpcErrorModel,
            >(IpcErrorModel::Locked)
            &&& type_plan(daemon.vault, request.args, now.unix) == Err::<
                Seq<TypeTokenModel>,
                IpcErrorModel,
            >(IpcErrorModel::Locked)
            &&& names_a_field(request.args) ==> copy_plan(
                daemon.config,
                daemon.vault,
                request.args,
                now.unix,
            ) == Err::<CopyPlanModel, IpcErrorModel>(IpcErrorModel::Locked)
        },
        !(step_for(daemon, request, now) is Copy),
        !(step_for(daemon, request, now) is Type),
{
}

/// Locking always succeeds and leaves no entry behind. It is announced if the
/// vault was not locked before, and locking again changes nothing.
pub proof fn law_lock_is_idempotent(daemon: DaemonModel, reason: LockReason, again: LockReason)
    ensures
        daemon.locked(reason).vault == VaultModel::Locked,
        daemon.locked(reason).outbox == if daemon.vault is Locked {
            daemon.outbox
        } else {
            daemon.outbox.push(EventModel::Locked { reason })
        },
        daemon.locked(reason).locked(again) == daemon.locked(reason),
        daemon.auto_locked(reason).auto_locked(again) == daemon.auto_locked(reason),
{
}

/// The lock of the session and the announcement of sleep lock an unlocked vault,
/// with one event that tells which it was. A wake-up changes nothing, and neither
/// does any signal while the vault is not unlocked.
pub proof fn law_session_signals_lock(daemon: DaemonModel, signal: SessionSignal)
    ensures
        daemon.heeded(signal) == if daemon.vault.is_locked()
            || signal == SessionSignal::PrepareForSleep(Some(false)) {
            daemon
        } else {
            daemon.with_vault(VaultModel::Locked).emitted(
                EventModel::Locked {
                    reason: if signal == SessionSignal::Lock {
                        LockReason::SessionLock
                    } else {
                        LockReason::Sleep
                    },
                },
            )
        },
{
}

/// Only `lock` and `unlock` change the state of the vault, no request but `lock` is
/// announced at once, and none changes the settings.
pub proof fn law_other_requests_leave_vault(daemon: DaemonModel, request: RequestModel)
    ensures
        request.op != "lock"@ && request.op != "unlock"@ ==> state_after(daemon, request) == daemon,
        request.op != "lock"@ ==> state_after(daemon, request).outbox == daemon.outbox,
        state_after(daemon, request).config == daemon.config,
        state_after(daemon, request).clipboard == daemon.clipboard,
{
}

// ---------------------------------------------------------------- unlocking

/// While an unlock is in flight a second one is turned away as busy, and nothing
/// changes, unless it is refused for the password that it carries.
pub proof fn law_second_unlock_is_busy(
    daemon: DaemonModel,
    request: RequestModel,
    now: MomentModel,
)
    requires
        daemon.vault is Unlocking,
        request.op == "unlock"@,
        text_member(request.args, "password"@) is None || daemon.config.allow_inline_unlock,
    ensures
        step_for(daemon, request, now) == StepModel::Reply(Err(IpcErrorModel::Busy)),
        state_after(daemon, request) == daemon,
{
    reveal_strlit("unlock");
    reveal_strlit("hello");
    reveal_strlit("status");
    reveal_strlit("lock");
    assert("unlock"@[0] != "status"@[0]);
    assert("unlock"@.len() == 6 && "hello"@.len() == 5 && "lock"@.len() == 4);
}

/// An unlock that succeeds shows its entries: their number is what is answered,
/// what is announced and what a later `unlock` is told, which changes nothing.
pub proof fn law_unlock_counts_entries(
    daemon: DaemonModel,
    attempt: UnlockOutcomeModel,
    now: u64,
    args: JsonValue,
)
    requires
        attempt is Opened,
    ensures
        ({
            let entries = attempt->Opened_0;
            let after = unlock_finished(daemon, attempt, now);
            &&& after.vault == VaultModel::Unlocked(entries)
            &&& after.vault.entries() == Ok::<Seq<EntryModel>, IpcErrorModel>(entries)
            &&& after.vault.entry_count() == entries.len()
            &&& after.activity == now
            &&& after.outbox == daemon.outbox.push(
                EventModel::Unlocked { entry_count: entries.len() },
            )
            &&& text_member(args, "password"@) is None ==> unlock_step(after, args)
                == StepModel::Reply(Ok(unlocked_value(entries.len())))
        }),
{
}

/// An unlock that fails leaves the vault locked and is not announced.
pub proof fn law_failed_unlock_stays_locked(
    daemon: DaemonModel,
    attempt: UnlockOutcomeModel,
    now: u64,
)
    requires
        !(attempt is Opened),
    ensures
        unlock_finished(daemon, attempt, now) == daemon.with_vault(VaultModel::Locked),
{
}

/// Unless the settings allow it, nothing that a request carries takes part in
/// unlocking the vault: the password is prompted for and the key file is that of
/// the settings.
pub proof fn law_no_inline_unlock_unless_allowed(daemon: DaemonModel, args: JsonValue)
    requires
        !daemon.config.allow_inline_unlock,
    ensures
        unlock_step(daemon, args) matches StepModel::Unlock(plan) ==> plan.password is None
            && plan.path == daemon.active_vault().path && plan.keyfile
            == daemon.active_vault().keyfile,
{
}

// ---------------------------------------------------------------- typing

/// A single field is shorthand for a sequence of that field alone.
pub proof fn law_field_abbreviates_sequence(short: JsonValue, long: JsonValue, field: Seq<char>)
    requires
        text_member(short, "sequence"@) is None,
        text_member(short, "field"@) == Some(field),
        text_member(long, "sequence"@) == Some(field),
    ensures
        wanted_sequence(short) == wanted_sequence(long),
{
}

// ---------------------------------------------------------------- secrecy

/// A request for fields that names a secret is refused, whatever else it names:
/// passwords, notes and custom fields are never shown. The four public names mean
/// the public fields, so a custom field with such a name is left out.
pub proof fn law_get_refuses_secrets(entry: EntryModel, names: Seq<Seq<char>>, secret: Seq<char>)
    requires
        names.contains(secret),
        secret == "password"@ || secret == "notes"@ || entry.string_fields.contains_key(secret),
        secret != "username"@ && secret != "url"@ && secret != "title"@ && secret != "group"@,
    ensures
        public_fields(entry, names) matches Err(IpcErrorModel::Unsupported(_)),
    decreases names.len(),
{
    let before = names.drop_last();
    if names.last() != secret {
        let k = choose|k: int| 0 <= k < names.len() && names[k] == secret;
        assert(before[k] == secret);
        law_get_refuses_secrets(entry, before, secret);
    } else {
        lemma_refusals_are_unsupported(entry, before);
    }
}

/// The only way in which fields are refused is that one is a secret.
proof fn lemma_refusals_are_unsupported(entry: EntryModel, names: Seq<Seq<char>>)
    ensures
        public_fields(entry, names) matches Err(err) ==> err is Unsupported,
    decreases names.len(),
{
    if names.len() > 0 {
        lemma_refusals_are_unsupported(entry, names.drop_last());
    }
}

/// Two entries that differ in secrets only: the texts of passwords, notes and
/// custom fields, and what one-time passwords are made from.
pub open spec fn alike(a: EntryModel, b: EntryModel) -> bool {
    &&& a.uuid == b.uuid
    &&& a.title == b.title
    &&& a.username == b.username
    &&& a.url == b.url
    &&& a.group == b.group
    &&& a.tags == b.tags
    &&& a.password is Some <==> b.password is Some
    &&& a.notes is Some <==> b.notes is Some
    &&& a.string_fields.dom() == b.string_fields.dom()
    &&& match (a.totp, b.totp) {
        (Some(x), Some(y)) => x.step == y.step && x.digits == y.digits,
        (None, None) => true,
        _ => false,
    }
}

/// Two lists of entries that differ in secrets only.
pub open spec fn all_alike(a: Seq<EntryModel>, b: Seq<EntryModel>) -> bool {
    a.len() == b.len() && forall|i: int|
        #![trigger a[i]]
        #![trigger b[i]]
        0 <= i < a.len() ==> alike(a[i], b[i])
}

/// Two vaults that differ in secrets only.
pub open spec fn vaults_alike(a: VaultModel, b: VaultModel) -> bool {
    match (a, b) {
        (VaultModel::Unlocked(x), VaultModel::Unlocked(y)) => all_alike(x, y),
        (VaultModel::Locked, VaultModel::Locked) => true,
        (VaultModel::Unlocking, VaultModel::Unlocking) => true,
        _ => false,
    }
}

/// Two steps after which, whatever comes of them outside, the same is answered.
pub open spec fn answered_alike(a: StepModel, b: StepModel) -> bool {
    match (a, b) {
        (StepModel::Reply(x), StepModel::Reply(y)) => x == y,
        (StepModel::Unlock(x), StepModel::Unlock(y)) => x == y,
        (StepModel::Copy(x), StepModel::Copy(y)) => copied_value(x) == copied_value(y) && x.uuid
            == y.uuid && x.field == y.field && x.clear_after == y.clear_after,
        (StepModel::Type(x), StepModel::Type(y)) => tokens_alike(x, y),
        _ => false,
    }
}

/// Two typing steps that differ in secrets only: in the text that is typed.
pub open spec fn token_alike(a: TypeTokenModel, b: TypeTokenModel) -> bool {
    match (a, b) {
        (TypeTokenModel::Text(_), TypeTokenModel::Text(_)) => true,
        (TypeTokenModel::Key(x), TypeTokenModel::Key(y)) => x == y,
        (TypeTokenModel::Delay(x), TypeTokenModel::Delay(y)) => x == y,
        _ => false,
    }
}

/// Two typing sequences that differ in secrets only.
pub open spec fn tokens_alike(a: Seq<TypeTokenModel>, b: Seq<TypeTokenModel>) -> bool {
    a.len() == b.len() && forall|i: int|
        #![trigger a[i]]
        #![trigger b[i]]
        0 <= i < a.len() ==> token_alike(a[i], b[i])
}

/// Typing sequences that differ in secrets only end alike, whatever comes of each
/// token: as many tokens are tried, and the same is told of the end.
pub proof fn law_typing_ends_alike(
    a: Seq<TypeTokenModel>,
    b: Seq<TypeTokenModel>,
    at: nat,
    ran: spec_fn(nat) -> Option<RunFailureModel>,
)
    requires
        tokens_alike(a, b),
    ensures
        typing_end(a, at, ran) == typing_end(b, at, ran),
    decreases a.len() - at,
{
    if at < a.len() {
        assert(token_alike(a[at as int], b[at as int]));
        law_typing_ends_alike(a, b, at + 1, ran);
    }
}

/// A ranking does not depend on secrets.
proof fn lemma_ranking_alike(a: Seq<EntryModel>, b: Seq<EntryModel>, query: Seq<char>)
    requires
        all_alike(a, b),
    ensures
        ranking(a, query) == ranking(b, query),
{
    law_ranking_is_unique(a, query);
    law_ranking_is_unique(b, query);
    let order = ranking(a, query);
    assert forall|i: int| 0 <= i < a.len() implies score(query, #[trigger] a[i]) == score(
        query,
        b[i],
    ) by {
        assert(alike(a[i], b[i]));
    }
    assert forall|i: int| #[trigger] order.contains(i) <==> matches_query(
        b,
        query,
        b.len(),
        i,
    ) by {
        assert(order.contains(i) <==> matches_query(a, query, a.len(), i));
        if 0 <= i < a.len() {
            assert(score(query, a[i]) == score(query, b[i]));
        }
    }
    assert forall|x: int, y: int| 0 <= x < y < order.len() implies outranks(
        b,
        query,
        #[trigger] order[x],
        #[trigger] order[y],
    ) by {
        assert(order.contains(order[x]));
        assert(order.contains(order[y]));
        assert(matches_query(a, query, a.len(), order[x]));
        assert(matches_query(a, query, a.len(), order[y]));
        assert(alike(a[order[x]], b[order[x]]));
        assert(alike(a[order[y]], b[order[y]]));
        assert(outranks(a, query, order[x], order[y]));
    }
    assert(in_rank_order(order, b, query));
    assert(is_ranking(order, b, query));
}

/// What a list shows does not depend on secrets.
proof fn lemma_listed_alike(a: Seq<EntryModel>, b: Seq<EntryModel>, query: Seq<char>, limit: nat)
    requires
        all_alike(a, b),
    ensures
        listed(a, query, limit) == listed(b, query, limit),
{
    lemma_ranking_alike(a, b, query);
    law_ranking_is_unique(a, query);
    let order = ranking(a, query);
    let (x, y) = (listed(a, query, limit), listed(b, query, limit));
    assert forall|k: int| 0 <= k < x.len() implies x[k] == y[k] by {
        assert(order.contains(order[k]));
        assert(matches_query(a, query, a.len(), order[k]));
        assert(alike(a[order[k]], b[order[k]]));
        assert(meta_of(a[order[k]]) == meta_of(b[order[k]]));
    }
    assert(x =~= y);
}

/// Which entry is found does not depend on secrets.
proof fn lemma_found_alike(a: Seq<EntryModel>, b: Seq<EntryModel>, uuid: Seq<char>)
    requires
        all_alike(a, b),
    ensures
        match (entry_with(a, uuid), entry_with(b, uuid)) {
            (Some(x), Some(y)) => alike(x, y),
            (None, None) => true,
            _ => false,
        },
    decreases a.len(),
{
    if a.len() > 0 {
        let (ra, rb) = (a.drop_last(), b.drop_last());
        assert forall|i: int|
            #![trigger ra[i]]
            #![trigger rb[i]]
            0 <= i < ra.len() implies alike(ra[i], rb[i]) by {
            assert(ra[i] == a[i] && rb[i] == b[i]);
        }
        lemma_found_alike(ra, rb, uuid);
        assert(alike(a[a.len() - 1], b[b.len() - 1]));
    }
}

/// What is shown of fields does not depend on secrets.
proof fn lemma_public_fields_alike(a: EntryModel, b: EntryModel, names: Seq<Seq<char>>)
    requires
        alike(a, b),
    ensures
        public_fields(a, names) == public_fields(b, names),
    decreases names.len(),
{
    if names.len() > 0 {
        lemma_public_fields_alike(a, b, names.drop_last());
        let name = names.last();
        assert(a.string_fields.contains_key(name) == a.string_fields.dom().contains(name));
        assert(b.string_fields.contains_key(name) == b.string_fields.dom().contains(name));
        assert(public_field(a, name) == public_field(b, name));
    }
}

/// Whether a field can be had, and the error if not, does not depend on secrets.
proof fn lemma_secret_alike(
    a: EntryModel,
    b: EntryModel,
    field: CopyFieldModel,
    now: Result<u64, Seq<char>>,
)
    requires
        alike(a, b),
    ensures
        match (secret_of(a, field, now), secret_of(b, field, now)) {
            (Ok(_), Ok(_)) => true,
            (Err(x), Err(y)) => x == y,
            _ => false,
        },
{
    if let CopyFieldModel::Custom(name) = field {
        assert(a.string_fields.contains_key(name) == a.string_fields.dom().contains(name));
        assert(b.string_fields.contains_key(name) == b.string_fields.dom().contains(name));
    }
}

/// Whether a sequence can be typed, and the error if not, does not depend on
/// secrets.
proof fn lemma_steps_alike(
    a: EntryModel,
    b: EntryModel,
    words: Seq<Seq<char>>,
    now: Result<u64, Seq<char>>,
)
    requires
        alike(a, b),
    ensures
        match (steps_for_words(a, words, now), steps_for_words(b, words, now)) {
            (Ok(x), Ok(y)) => tokens_alike(x, y),
            (Err(x), Err(y)) => x == y,
            _ => false,
        },
    decreases words.len(),
{
    if words.len() > 0 {
        lemma_steps_alike(a, b, words.drop_last(), now);
        if let Ok(field) = field_named(words.last()) {
            lemma_secret_alike(a, b, field, now);
        }
        assert(match (step_for_word(a, words.last(), now), step_for_word(b, words.last(), now)) {
            (Ok(x), Ok(y)) => token_alike(x, y),
            (Err(x), Err(y)) => x == y,
            _ => false,
        });
    }
}

/// Nothing that goes out to a client depends on a secret. Two daemons whose
/// vaults differ in secrets only answer every request alike, whatever comes of
/// what they do outside.
pub proof fn law_answers_hide_secrets(
    a: DaemonModel,
    b: DaemonModel,
    request: RequestModel,
    now: MomentModel,
)
    requires
        vaults_alike(a.vault, b.vault),
        a == b.with_vault(a.vault),
    ensures
        answered_alike(step_for(a, request, now), step_for(b, request, now)),
        state_after(a, request).outbox == state_after(b, request).outbox,
        vaults_alike(state_after(a, request).vault, state_after(b, request).vault),
{
    let args = request.args;
    if let (VaultModel::Unlocked(x), VaultModel::Unlocked(y)) = (a.vault, b.vault) {
        let query = match text_member(args, "query"@) {
            Some(query) => query,
            None => Seq::empty(),
        };
        let limit = match crate::json::uint_member(args, "limit"@) {
            Some(limit) => limit as nat,
            None => 200,
        };
        lemma_listed_alike(x, y, query, limit);
        if let Some(uuid) = text_member(args, "uuid"@) {
            lemma_found_alike(x, y, uuid);
            if let (Some(e), Some(f)) = (entry_with(x, uuid), entry_with(y, uuid)) {
                lemma_public_fields_alike(e, f, crate::json::texts_member(args, "fields"@));
                lemma_steps_alike(
                    e,
                    f,
                    crate::text::words(wanted_sequence(args)),
                    now.unix,
                );
                if let Some(name) = text_member(args, "field"@) {
                    if let Ok(field) = field_named(name) {
                        lemma_secret_alike(e, f, field, now.unix);
                    }
                }
            }
        }
    }
}

} // verus!
