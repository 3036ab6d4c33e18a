//! What is said of a value is what the value holds, and of a list what its items
//! hold, in their order.

use vstd::prelude::*;

use crate::actions::{
    failure_model, wipe_model, Invocation, PendingWipe, RunFailure, RunFailureModel, TypeOutcome,
    TypeOutcomeModel, TypeStep, TypeStepModel,
};
use crate::config::{
    load_outcome, read_outcome, settings, vault_models, vault_names, Config, ConfigError,
    ConfigErrorModel, ConfigText, LoadError, LoadErrorModel, ReadFailure, ReadFailureModel,
    VaultConfig,
};
use crate::daemon::{parsed_model, CopyPlan, Moment, Step, StepModel, UnlockPlan};
use crate::entry::{
    clock_model, entry_models, token_models, CopyField, CopyFieldModel, Entry, EntryMeta,
    TypeToken, TypeTokenModel,
};
use crate::ipc::{
    event_model, event_models, outcome, Event, EventModel, IpcError, IpcErrorModel, Request,
};
use crate::json::{values, Json, JsonValue};
use crate::paths::{optional_path, optional_path_ref, UnixPath};
use crate::secret::{optional_text, Secret};
use crate::security::{told, verdict};
use crate::text::{optional_str, optional_string, texts};
use crate::vault::{meta_models, KdbxError, UnlockOutcome, UnlockOutcomeModel, VaultModel, VaultState};

verus! {

// ---------------------------------------------------------------- what may be missing or fail

/// The clock tells the time that it shows, or why it shows none.
pub proof fn law_clock(now: Moment, secs: u64, why: String)
    ensures
        clock_model(Ok(secs)) == Ok::<u64, Seq<char>>(secs),
        clock_model(Err(why)) == Err::<u64, Seq<char>>(why@),
        now@.uptime == now.uptime,
        now@.unix == clock_model(now.unix),
{
}

/// What is there is told, and what is not there is not.
pub proof fn law_what_may_be_missing(
    text: String,
    lent: &str,
    secret: Secret,
    path: UnixPath,
    event: Event,
    wipe: PendingWipe,
)
    ensures
        optional_string(Some(text)) == Some(text@),
        optional_string(None) is None,
        optional_str(Some(lent)) == Some(lent@),
        optional_str(None) is None,
        optional_text(Some(secret)) == Some(secret@),
        optional_text(None) is None,
        optional_path(Some(path)) == Some(path@),
        optional_path(None) is None,
        optional_path_ref(Some(&path)) == Some(path@),
        optional_path_ref(None) is None,
        event_model(Some(event)) == Some(event@),
        event_model(None) is None,
        wipe_model(Some(wipe)) == Some(wipe@),
        wipe_model(None) is None,
{
}

/// What may fail is told with its value or with its error.
pub proof fn law_what_may_fail(
    json: Json,
    err: IpcError,
    path: UnixPath,
    why: String,
    config: Config,
    fault: ConfigError,
    trouble: LoadError,
    text: ConfigText,
    failure: ReadFailure,
    ran: RunFailure,
    request: Request,
)
    ensures
        outcome(Ok::<Json, IpcError>(json)) == Ok::<JsonValue, IpcErrorModel>(json@),
        outcome(Err::<Json, IpcError>(err)) == Err::<JsonValue, IpcErrorModel>(err@),
        told(Ok(path)) == Ok::<Seq<u8>, Seq<char>>(path@),
        told(Err(why)) == Err::<Seq<u8>, Seq<char>>(why@),
        verdict(Ok(())) is None,
        verdict(Err(why)) == Some(why@),
        settings(Ok::<Config, ConfigError>(config)) matches Ok(said) && said == config@,
        settings(Err::<Config, ConfigError>(fault)) matches Err(said) && said == fault@,
        load_outcome(Ok::<Config, LoadError>(config)) matches Ok(said) && said == config@,
        load_outcome(Err::<Config, LoadError>(trouble)) matches Err(said) && said == trouble@,
        read_outcome(Ok(text)) matches Ok(said) && said == text@,
        read_outcome(Err(failure)) matches Err(said) && said == failure@,
        failure_model(Ok(())) is None,
        failure_model(Err(ran)) == Some(ran@),
        parsed_model(Ok(request)) matches Ok(said) && said == request@,
        parsed_model(Err(why)) matches Err(said) && said == why@,
{
}

/// A list is told item by item.
pub proof fn law_lists(
    strings: Seq<String>,
    items: Seq<Json>,
    entries: Seq<Entry>,
    tokens: Seq<TypeToken>,
    metas: Seq<EntryMeta>,
    events: Seq<Event>,
    vaults: Seq<VaultConfig>,
)
    ensures
        texts(strings).len() == strings.len(),
        forall|i: int| 0 <= i < strings.len() ==> #[trigger] texts(strings)[i] == strings[i]@,
        values(items).len() == items.len(),
        forall|i: int| 0 <= i < items.len() ==> #[trigger] values(items)[i] == items[i]@,
        entry_models(entries).len() == entries.len(),
        forall|i: int|
            0 <= i < entries.len() ==> #[trigger] entry_models(entries)[i] == entries[i]@,
        token_models(tokens).len() == tokens.len(),
        forall|i: int| 0 <= i < tokens.len() ==> #[trigger] token_models(tokens)[i] == tokens[i]@,
        meta_models(metas).len() == metas.len(),
        forall|i: int| 0 <= i < metas.len() ==> #[trigger] meta_models(metas)[i] == metas[i]@,
        event_models(events).len() == events.len(),
        forall|i: int| 0 <= i < events.len() ==> #[trigger] event_models(events)[i] == events[i]@,
        vault_models(vaults).len() == vaults.len(),
        forall|i: int| 0 <= i < vaults.len() ==> #[trigger] vault_models(vaults)[i] == vaults[i]@,
        vault_names(vault_models(vaults)).len() == vaults.len(),
        forall|i: int|
            0 <= i < vaults.len() ==> #[trigger] vault_names(vault_models(vaults))[i]
                == vaults[i].name@,
{
}

// ---------------------------------------------------------------- entries

/// An entry is told field by field.
pub proof fn law_entry_fields(entry: Entry, meta: EntryMeta)
    ensures
        entry@.uuid == entry.uuid@,
        entry@.title == entry.title@,
        entry@.username == entry.username@,
        entry@.url == entry.url@,
        entry@.group == entry.group@,
        entry@.tags == texts(entry.tags@),
        entry@.password == optional_text(entry.password),
        entry@.notes == optional_text(entry.notes),
        entry@.string_fields == entry.string_fields@,
        entry@.totp is Some <==> entry.totp is Some,
        entry.totp matches Some(totp) ==> entry@.totp == Some(totp@),
        meta@.uuid == meta.uuid@,
        meta@.title == meta.title@,
        meta@.username == meta.username@,
        meta@.group == meta.group@,
        meta@.url == meta.url@,
        meta@.has_password == meta.has_password,
        meta@.has_totp == meta.has_totp,
        meta@.tags == texts(meta.tags@),
{
}

/// A field that can be copied and a token that can be typed are told as they are.
pub proof fn law_fields_and_tokens(field: CopyField, token: TypeToken)
    ensures
        field@ == match field {
            CopyField::Password => CopyFieldModel::Password,
            CopyField::Username => CopyFieldModel::Username,
            CopyField::Url => CopyFieldModel::Url,
            CopyField::Notes => CopyFieldModel::Notes,
            CopyField::Totp => CopyFieldModel::Totp,
            CopyField::OtpUri => CopyFieldModel::OtpUri,
            CopyField::Custom(name) => CopyFieldModel::Custom(name@),
        },
        token@ == match token {
            TypeToken::Text(text) => TypeTokenModel::Text(text@),
            TypeToken::Key(key) => TypeTokenModel::Key(key@),
            TypeToken::Delay(span) => TypeTokenModel::Delay(span@),
        },
{
}

// ---------------------------------------------------------------- the vault

/// The state of the vault and the outcome of an unlock are told as they are.
pub proof fn law_vault_states(vault: VaultState, attempt: UnlockOutcome)
    ensures
        match vault {
            VaultState::Locked => vault@ == VaultModel::Locked,
            VaultState::Unlocked(open) => vault@ == VaultModel::Unlocked(open@),
            VaultState::Unlocking => vault@ == VaultModel::Unlocking,
        },
        match attempt {
            UnlockOutcome::PromptFailed(why) => attempt@ == UnlockOutcomeModel::PromptFailed(why@),
            UnlockOutcome::Tried(Ok(entries)) => attempt@ == UnlockOutcomeModel::Opened(
                entry_models(entries@),
            ),
            UnlockOutcome::Tried(Err(KdbxError::WrongKey)) => attempt@
                == UnlockOutcomeModel::WrongKey,
            UnlockOutcome::Tried(Err(KdbxError::Other(why))) => attempt@
                == UnlockOutcomeModel::Failed(why@),
        },
{
}

// ---------------------------------------------------------------- settings

/// The settings are told one by one.
pub proof fn law_config_fields(config: Config, vault: VaultConfig, text: ConfigText)
    ensures
        config@.vaults == vault_models(config.vaults@),
        config.idle_lock is None ==> config@.idle_lock is None,
        config.idle_lock matches Some(limit) ==> config@.idle_lock == Some(limit@),
        config@.clipboard_clear == config.clipboard_clear@,
        config@.allow_inline_unlock == config.allow_inline_unlock,
        config@.pinentry_program == optional_string(config.pinentry_program),
        config@.socket_path == optional_path(config.socket_path),
        vault@.name == vault.name@,
        vault@.path == vault.path@,
        vault@.keyfile == optional_path(vault.keyfile),
        text@.text == text.text@,
        text@.complaint == optional_string(text.complaint),
{
}

/// What is wrong with the settings is told as it is.
pub proof fn law_config_errors(err: ConfigError, trouble: LoadError, failure: ReadFailure)
    ensures
        err@ == match err {
            ConfigError::Syntax(why) => ConfigErrorModel::Syntax(why@),
            ConfigError::Shape(why) => ConfigErrorModel::Shape(why@),
            ConfigError::NoVault => ConfigErrorModel::NoVault,
            ConfigError::SameName(name) => ConfigErrorModel::SameName(name@),
            ConfigError::RelativePath(path) => ConfigErrorModel::RelativePath(path@),
        },
        trouble@ == match trouble {
            LoadError::NoConfigDir => LoadErrorModel::NoConfigDir,
            LoadError::Missing(path) => LoadErrorModel::Missing(path@),
            LoadError::Unreadable(path, why) => LoadErrorModel::Unreadable(path@, why@),
            LoadError::Invalid(path, err) => LoadErrorModel::Invalid(path@, err@),
        },
        failure@ == match failure {
            ReadFailure::NotFound => ReadFailureModel::NotFound,
            ReadFailure::Other(why) => ReadFailureModel::Other(why@),
        },
{
}

// ---------------------------------------------------------------- requests

/// A request, an error and an event are told as they are.
pub proof fn law_messages(request: Request, err: IpcError, event: Event)
    ensures
        request@.id == request.id,
        request@.op == request.op@,
        request@.args == request.args@,
        err@ == match err {
            IpcError::Locked => IpcErrorModel::Locked,
            IpcError::AuthFailed => IpcErrorModel::AuthFailed,
            IpcError::NotFound(what) => IpcErrorModel::NotFound(what@),
            IpcError::BadRequest(what) => IpcErrorModel::BadRequest(what@),
            IpcError::VaultError(what) => IpcErrorModel::VaultError(what@),
            IpcError::IoError(what) => IpcErrorModel::IoError(what@),
            IpcError::Unsupported(what) => IpcErrorModel::Unsupported(what@),
            IpcError::Busy => IpcErrorModel::Busy,
        },
        event@ == match event {
            Event::Unlocked { entry_count } => EventModel::Unlocked {
                entry_count: entry_count as nat,
            },
            Event::Locked { reason } => EventModel::Locked { reason },
            Event::VaultChanged => EventModel::VaultChanged,
            Event::ClipboardCleared { uuid, field } => EventModel::ClipboardCleared {
                uuid: uuid@,
                field: field@,
            },
        },
{
}

/// What a request comes to is told as it is.
pub proof fn law_steps(step: Step, unlock: UnlockPlan, copy: CopyPlan)
    ensures
        match step {
            Step::Reply(result) => step@ == StepModel::Reply(outcome(result)),
            Step::Unlock(plan) => step@ == StepModel::Unlock(plan@),
            Step::Copy(plan) => step@ == StepModel::Copy(plan@),
            Step::Type(tokens) => step@ == StepModel::Type(token_models(tokens@)),
        },
        unlock@.password == optional_text(unlock.password),
        unlock@.path == unlock.path@,
        unlock@.keyfile == optional_path(unlock.keyfile),
        copy@.uuid == copy.uuid@,
        copy@.field == copy.field@,
        copy@.value == copy.value@,
        copy@.clear_after == copy.clear_after@,
{
}

/// What is run, what is wiped and what went wrong is told as it is.
pub proof fn law_runs(
    command: Invocation,
    wipe: PendingWipe,
    step: TypeStep,
    failure: RunFailure,
    typed: TypeOutcome,
)
    ensures
        command@.program == command.program@,
        command@.args == texts(command.args@),
        command@.input == optional_text(command.input),
        wipe@.generation == wipe.generation,
        wipe@.uuid == wipe.uuid@,
        wipe@.field == wipe.field@,
        wipe@.value == wipe.value@,
        wipe@.after == wipe.after@,
        match step {
            TypeStep::Run(command) => step@ == TypeStepModel::Run(command@),
            TypeStep::Sleep(span) => step@ == TypeStepModel::Sleep(span@),
        },
        failure@ == match failure {
            RunFailure::Spawn => RunFailureModel::Spawn,
            RunFailure::Stdin => RunFailureModel::Stdin,
            RunFailure::Io(why) => RunFailureModel::Io(why@),
            RunFailure::Exit(status) => RunFailureModel::Exit(status@),
        },
        typed@ == match typed {
            TypeOutcome::Typed => TypeOutcomeModel::Typed,
            TypeOutcome::NoWtype => TypeOutcomeModel::NoWtype,
            TypeOutcome::TextFailed(failure) => TypeOutcomeModel::TextFailed(failure@),
            TypeOutcome::KeyFailed(key, status) => TypeOutcomeModel::KeyFailed(
                key@,
                optional_string(status),
            ),
        },
{
}

} // verus!
