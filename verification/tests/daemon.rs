use omarkeyd::actions::{TypeOutcome, WipeStep};
use omarkeyd::client::{
    help, interpret, plan, receive, socket, unknown_command, ClientEnd, ClientPlan,
};
use omarkeyd::config::Config;
use omarkeyd::daemon::{finish_type, Daemon, Moment, Step};
use omarkeyd::entry::Entry;
use omarkeyd::ipc::{carries_request, Event, IpcError, LockReason, Request, Response};
use omarkeyd::json::{Json, JsonObject};
use omarkeyd::paths::UnixPath;
use omarkeyd::secret::{Secret, SecretFields};
use omarkeyd::security::SessionSignal;
use omarkeyd::vault::{KdbxError, UnlockOutcome};

fn secret(text: &str) -> Secret {
    Secret::new(text.to_string())
}

fn entries() -> Vec<Entry> {
    let mut fields = SecretFields::new();
    fields.insert("pin".to_string(), secret("1234"));
    vec![Entry {
        uuid: "a1".to_string(),
        title: "GitHub".to_string(),
        username: "octocat".to_string(),
        url: "https://github.com".to_string(),
        group: "Dev".to_string(),
        tags: vec!["work".to_string()],
        password: Some(secret("hunter2")),
        notes: None,
        string_fields: fields,
        totp: None,
    }]
}

fn daemon_with(options: &str) -> Daemon {
    let text = format!("vault = \"/v/a.kdbx\"\nkeyfile = \"/v/a.keyx\"\n{options}");
    Daemon::new(Config::from_toml_str(&text).unwrap())
}

fn daemon() -> Daemon {
    daemon_with("")
}

fn unlocked_daemon() -> Daemon {
    let mut daemon = daemon();
    let step = ask(&mut daemon, "unlock", &[]);
    assert!(matches!(step, Step::Unlock(_)));
    daemon
        .finish_unlock(UnlockOutcome::Tried(Ok(entries())), 5)
        .unwrap();
    daemon.take_events();
    daemon
}

fn at(uptime: u64) -> Moment {
    Moment { uptime, unix: Ok(59) }
}

fn request(op: &str, args: &[(&str, &str)]) -> Request {
    let mut object = JsonObject::new();
    for (name, value) in args {
        object.insert(name, Json::text(value));
    }
    Request { id: Some(7), op: op.to_string(), args: Json::object(object) }
}

fn ask(daemon: &mut Daemon, op: &str, args: &[(&str, &str)]) -> Step {
    let mut subscribed = false;
    let (id, step) = daemon.handle_line(Ok(request(op, args)), &at(1000), &mut subscribed);
    assert_eq!(id, Some(7));
    step
}

fn reply(step: Step) -> Json {
    match step {
        Step::Reply(Ok(json)) => json,
        other => panic!("{other:?}"),
    }
}

fn refusal(step: Step) -> (&'static str, String) {
    match step {
        Step::Reply(Err(err)) => (err.code(), err.to_string()),
        other => panic!("{other:?}"),
    }
}

fn locked() -> (&'static str, String) {
    ("locked", "vault is locked".to_string())
}

fn flag(json: &Json, name: &str) -> bool {
    json.get(name).unwrap().as_truth().unwrap()
}

// ---------------------------------------------------------------- requests

#[test]
fn hello_before_unlock() {
    let json = reply(ask(&mut daemon(), "hello", &[]));
    assert_eq!(json.get_text("daemonVersion"), Some("0.1.0"));
    assert_eq!(json.get_uint("protocol"), Some(1));
    assert_eq!(json.get_text("vaultPath"), Some("/v/a.kdbx"));
    assert!(flag(&json, "locked"));
    assert_eq!(json.get_texts("capabilities"), ["copy", "type", "totp", "pinentry"]);
}

#[test]
fn status_counts_down() {
    let mut daemon = unlocked_daemon();
    let mut subscribed = false;
    let (_, step) = daemon.handle_line(Ok(request("status", &[])), &at(60_000), &mut subscribed);
    let json = reply(step);
    assert!(!flag(&json, "locked"));
    assert_eq!(json.get_uint("entryCount"), Some(1));
    assert_eq!(json.get_text("vaultPath"), Some("/v/a.kdbx"));
    // The request itself is activity.
    assert_eq!(json.get_uint("idleLockInSec"), Some(300));

    let json = reply(daemon.dispatch(&request("status", &[]), &at(61_500), &mut subscribed));
    assert_eq!(json.get_uint("idleLockInSec"), Some(298));

    let json = reply(ask(&mut daemon_with("idle_lock_seconds = 0"), "status", &[]));
    assert!(matches!(json.get("idleLockInSec"), Some(Json::Null)));
    assert!(flag(&json, "locked"));
    assert_eq!(json.get_uint("entryCount"), Some(0));
}

#[test]
fn unlock_is_prompted_for() {
    let mut daemon = daemon();
    match ask(&mut daemon, "unlock", &[("keyfile", "/evil.keyx")]) {
        Step::Unlock(plan) => {
            assert!(plan.password.is_none());
            assert_eq!(plan.path, UnixPath::from_text("/v/a.kdbx"));
            assert_eq!(plan.keyfile, Some(UnixPath::from_text("/v/a.keyx")));
        }
        other => panic!("{other:?}"),
    }
    assert!(daemon.vault().is_unlocking());
    assert_eq!(
        refusal(ask(&mut daemon, "unlock", &[])),
        ("busy", "another unlock is already in progress".to_string())
    );
    assert!(daemon.must_wait(&request("status", &[])));
    assert!(!daemon.must_wait(&request("unlock", &[])));
    assert!(!daemon.must_wait(&request("subscribe", &[])));

    let json = daemon
        .finish_unlock(UnlockOutcome::Tried(Ok(entries())), 2000)
        .unwrap();
    assert!(flag(&json, "unlocked"));
    assert_eq!(json.get_uint("entryCount"), Some(1));
    let events = daemon.take_events();
    assert_eq!(events.len(), 1);
    assert!(matches!(events[0], Event::Unlocked { entry_count: 1 }));
    assert!(daemon.take_events().is_empty());

    let json = reply(ask(&mut daemon, "unlock", &[]));
    assert_eq!(json.get_uint("entryCount"), Some(1));
    assert!(daemon.take_events().is_empty());
    assert!(!daemon.must_wait(&request("status", &[])));
}

#[test]
fn inline_unlock_must_be_allowed() {
    let mut plain = daemon();
    assert_eq!(
        refusal(ask(&mut plain, "unlock", &[("password", "p")])),
        (
            "unsupported",
            "inline-password unlock is disabled; enable allow_inline_unlock or use pinentry"
                .to_string()
        )
    );
    assert!(!plain.vault().is_unlocking());

    let mut open = daemon_with("allow_inline_unlock = true");
    match ask(&mut open, "unlock", &[("password", "p"), ("keyfile", "/k")]) {
        Step::Unlock(plan) => {
            assert_eq!(plan.password.unwrap().expose_secret(), "p");
            assert_eq!(plan.keyfile, Some(UnixPath::from_text("/k")));
        }
        other => panic!("{other:?}"),
    }
}

#[test]
fn failed_unlock_is_answered() {
    let mut daemon = daemon();
    ask(&mut daemon, "unlock", &[]);
    let err = daemon
        .finish_unlock(UnlockOutcome::Tried(Err(KdbxError::WrongKey)), 2000)
        .unwrap_err();
    assert_eq!(err.code(), "auth-failed");
    assert!(daemon.take_events().is_empty());
    assert!(!daemon.vault().is_unlocking());
    assert!(daemon.vault().is_locked());
}

#[test]
fn lock_always_succeeds() {
    let mut daemon = unlocked_daemon();
    assert!(flag(&reply(ask(&mut daemon, "lock", &[])), "locked"));
    let events = daemon.take_events();
    assert_eq!(events.len(), 1);
    assert!(matches!(events[0], Event::Locked { reason: LockReason::Manual }));
    assert!(flag(&reply(ask(&mut daemon, "lock", &[])), "locked"));
    assert!(daemon.take_events().is_empty());
}

#[test]
fn locked_vaults_tell_nothing() {
    let mut daemon = daemon();
    let uuid = ("uuid", "a1");
    for (op, args) in [
        ("list", vec![]),
        ("get", vec![uuid]),
        ("copy", vec![uuid, ("field", "password")]),
        ("type", vec![uuid]),
        ("totp", vec![uuid]),
    ] {
        assert_eq!(refusal(ask(&mut daemon, op, &args)), locked(), "{op}");
    }
}

#[test]
fn missing_arguments_are_named() {
    let mut daemon = unlocked_daemon();
    for op in ["get", "copy", "type", "totp"] {
        assert_eq!(
            refusal(ask(&mut daemon, op, &[])),
            ("bad-request", "missing string field `uuid`".to_string())
        );
    }
    assert_eq!(
        refusal(ask(&mut daemon, "copy", &[("uuid", "a1")])),
        ("bad-request", "missing string field `field`".to_string())
    );
    assert_eq!(
        refusal(ask(&mut daemon, "copy", &[("uuid", "a1"), ("field", "")])),
        ("bad-request", "empty field name".to_string())
    );
    assert_eq!(
        refusal(ask(&mut daemon, "fly", &[])),
        ("bad-request", "unknown op: fly".to_string())
    );
    assert_eq!(
        refusal(ask(&mut daemon, "totp", &[("uuid", "zz")])),
        ("not-found", "no entry with uuid zz".to_string())
    );
}

#[test]
fn list_and_get() {
    let mut daemon = unlocked_daemon();
    let json = reply(ask(&mut daemon, "list", &[("query", "git")]));
    match json.get("entries") {
        Some(Json::Array(items)) => {
            assert_eq!(items.len(), 1);
            assert_eq!(items[0].get_text("title"), Some("GitHub"));
        }
        other => panic!("{other:?}"),
    }
    let json = reply(ask(&mut daemon, "list", &[("query", "zzz")]));
    assert!(matches!(json.get("entries"), Some(Json::Array(items)) if items.is_empty()));

    let mut args = JsonObject::new();
    args.insert("limit", Json::uint(0));
    let none = Request { id: None, op: "list".to_string(), args: Json::object(args) };
    let json = reply(daemon.dispatch(&none, &at(0), &mut false));
    assert!(matches!(json.get("entries"), Some(Json::Array(items)) if items.is_empty()));

    let mut args = JsonObject::new();
    args.insert("uuid", Json::text("a1"));
    args.insert(
        "fields",
        Json::array(vec![Json::text("username"), Json::uint(3), Json::text("url")]),
    );
    let get = Request { id: None, op: "get".to_string(), args: Json::object(args) };
    let json = reply(daemon.dispatch(&get, &at(0), &mut false));
    assert_eq!(json.get_text("uuid"), Some("a1"));
    let fields = json.get("fields").unwrap();
    assert_eq!(fields.get_text("username"), Some("octocat"));
    assert_eq!(fields.get_text("url"), Some("https://github.com"));
}

#[test]
fn totp_of_an_entry_without() {
    let mut daemon = unlocked_daemon();
    let json = reply(ask(&mut daemon, "totp", &[("uuid", "a1")]));
    assert!(!flag(&json, "hasTotp"));
}

#[test]
fn copy_and_wipe() {
    let mut daemon = unlocked_daemon();
    let plan = match ask(&mut daemon, "copy", &[("uuid", "a1"), ("field", "pass")]) {
        Step::Copy(plan) => plan,
        other => panic!("{other:?}"),
    };
    assert_eq!(plan.value.expose_secret(), "hunter2");
    let (answer, wipe) = daemon.finish_copy(plan, true);
    let json = answer.unwrap();
    assert!(flag(&json, "copied"));
    assert_eq!(json.get_text("field"), Some("password"));
    assert_eq!(json.get_uint("clearsInMs"), Some(20_000));
    let wipe = wipe.unwrap();
    assert_eq!(wipe.uuid, "a1");
    assert_eq!(wipe.after.as_millis(), 20_000);
    assert_eq!(daemon.wipe_due(&wipe), WipeStep::ReadClipboard);

    let mut args = JsonObject::new();
    args.insert("uuid", Json::text("a1"));
    args.insert("field", Json::text("username"));
    args.insert("clearAfterMs", Json::uint(0));
    let copy = Request { id: None, op: "copy".to_string(), args: Json::object(args) };
    let plan = match daemon.dispatch(&copy, &at(0), &mut false) {
        Step::Copy(plan) => plan,
        other => panic!("{other:?}"),
    };
    let (answer, none) = daemon.finish_copy(plan, true);
    assert_eq!(answer.unwrap().get_uint("clearsInMs"), Some(0));
    assert!(none.is_none());
    assert_eq!(daemon.wipe_due(&wipe), WipeStep::Leave);
}

#[test]
fn copy_that_fails() {
    let mut daemon = unlocked_daemon();
    let plan = match ask(&mut daemon, "copy", &[("uuid", "a1"), ("field", "url")]) {
        Step::Copy(plan) => plan,
        other => panic!("{other:?}"),
    };
    let (answer, wipe) = daemon.finish_copy(plan, false);
    let err = answer.unwrap_err();
    assert_eq!((err.code(), err.to_string()), ("io-error", "wl-copy failed".to_string()));
    assert!(wipe.is_none());
}

#[test]
fn type_sequences_and_fields() {
    let mut daemon = unlocked_daemon();
    let count = |step: Step| match step {
        Step::Type(tokens) => tokens.len(),
        other => panic!("{other:?}"),
    };
    let uuid = ("uuid", "a1");
    assert_eq!(count(ask(&mut daemon, "type", &[uuid])), 1);
    assert_eq!(count(ask(&mut daemon, "type", &[uuid, ("sequence", "username tab password")])), 3);
    assert_eq!(count(ask(&mut daemon, "type", &[uuid, ("field", "username enter")])), 2);
    assert_eq!(
        count(ask(&mut daemon, "type", &[uuid, ("field", "a b"), ("sequence", "")])),
        0
    );
    assert!(flag(&finish_type(&TypeOutcome::Typed).unwrap(), "typed"));
    let err = finish_type(&TypeOutcome::NoWtype).unwrap_err();
    assert_eq!(err.code(), "unsupported");
}

#[test]
fn subscribing_is_idempotent() {
    let mut daemon = daemon();
    let mut subscribed = false;
    for _ in 0..2 {
        let step = daemon.dispatch(&request("subscribe", &[]), &at(0), &mut subscribed);
        assert!(flag(&reply(step), "subscribed"));
        assert!(subscribed);
    }
    daemon.dispatch(&request("hello", &[]), &at(0), &mut subscribed);
    assert!(subscribed);
}

#[test]
fn lines_without_a_request() {
    assert!(!carries_request(" \t"));
    assert!(!carries_request(""));
    assert!(carries_request("{}"));
    let mut daemon = daemon();
    let mut subscribed = false;
    let why = "expected value at line 1 column 1".to_string();
    let (id, step) = daemon.handle_line(Err(why), &at(9), &mut subscribed);
    assert_eq!(id, None);
    assert_eq!(
        refusal(step),
        (
            "bad-request",
            "invalid JSON: expected value at line 1 column 1".to_string()
        )
    );
}

#[test]
fn idle_vaults_lock_themselves() {
    let mut daemon = unlocked_daemon();
    ask(&mut daemon, "hello", &[]);
    daemon.idle_tick(300_999);
    assert!(!daemon.vault().is_locked());
    daemon.idle_tick(301_000);
    assert!(daemon.vault().is_locked());
    let events = daemon.take_events();
    assert!(matches!(events[0], Event::Locked { reason: LockReason::Idle }));
    daemon.idle_tick(900_000);
    daemon.auto_lock(LockReason::Sleep);
    assert!(daemon.take_events().is_empty());
}

#[test]
fn session_lock_locks() {
    let mut daemon = unlocked_daemon();
    daemon.heed(SessionSignal::PrepareForSleep(Some(false)));
    assert!(!daemon.vault().is_locked());
    daemon.heed(SessionSignal::Lock);
    assert!(daemon.vault().is_locked());
    let json = daemon.take_events()[0].to_json();
    assert_eq!(json.get_text("event"), Some("locked"));
    assert_eq!(json.get_text("reason"), Some("session-lock"));
    daemon.heed(SessionSignal::Lock);
    assert!(daemon.take_events().is_empty());

    for about in [Some(true), None] {
        let mut daemon = unlocked_daemon();
        daemon.heed(SessionSignal::PrepareForSleep(about));
        assert!(daemon.vault().is_locked());
        let events = daemon.take_events();
        assert_eq!(events.len(), 1);
        assert!(matches!(events[0], Event::Locked { reason: LockReason::Sleep }));
    }
}

#[test]
fn answers_do_not_depend_on_secrets() {
    let mut one = unlocked_daemon();
    let mut other = daemon();
    ask(&mut other, "unlock", &[]);
    let mut changed = entries();
    changed[0].password = Some(secret("another"));
    let mut fields = SecretFields::new();
    fields.insert("pin".to_string(), secret("9999"));
    changed[0].string_fields = fields;
    other.finish_unlock(UnlockOutcome::Tried(Ok(changed)), 5).unwrap();
    other.take_events();
    let uuid = ("uuid", "a1");
    for (op, args) in [
        ("status", vec![]),
        ("list", vec![("query", "hunter")]),
        ("list", vec![("query", "")]),
        ("get", vec![uuid]),
        ("copy", vec![uuid, ("field", "notes")]),
        ("type", vec![uuid, ("sequence", "pin nothing")]),
        ("totp", vec![uuid]),
    ] {
        let a = ask(&mut one, op, &args);
        let b = ask(&mut other, op, &args);
        assert_eq!(format!("{a:?}"), format!("{b:?}"), "{op}");
    }
}

// ---------------------------------------------------------------- the wire

#[test]
fn responses_on_the_wire() {
    let json = Response::ok(Some(-3), Json::truth(true)).into_json();
    assert!(matches!(json.get("id"), Some(Json::Negative(-3))));
    assert!(flag(&json, "ok"));
    assert!(flag(&json, "result"));
    assert!(json.get("error").is_none());

    let json = Response::err(None, IpcError::Locked).into_json();
    assert!(matches!(json.get("id"), Some(Json::Null)));
    assert!(!flag(&json, "ok"));
    assert!(json.get("result").is_none());
    let error = json.get("error").unwrap();
    assert_eq!(error.get_text("code"), Some("locked"));
    assert_eq!(error.get_text("message"), Some("vault is locked"));
}

#[test]
fn codes_and_messages_of_errors() {
    let s = || "x".to_string();
    for (err, code, message) in [
        (IpcError::Locked, "locked", "vault is locked"),
        (IpcError::AuthFailed, "auth-failed", "wrong master password or key file"),
        (IpcError::NotFound(s()), "not-found", "no entry with uuid x"),
        (IpcError::BadRequest(s()), "bad-request", "x"),
        (IpcError::VaultError(s()), "vault-error", "vault error: x"),
        (IpcError::IoError(s()), "io-error", "x"),
        (IpcError::Unsupported(s()), "unsupported", "x"),
        (IpcError::Busy, "busy", "another unlock is already in progress"),
    ] {
        assert_eq!(err.code(), code);
        assert_eq!(err.to_string(), message);
    }
}

#[test]
fn events_on_the_wire() {
    let json = Event::Unlocked { entry_count: 214 }.to_json();
    assert_eq!(json.get_text("event"), Some("unlocked"));
    assert_eq!(json.get_uint("entryCount"), Some(214));
    for (reason, name) in [
        (LockReason::Idle, "idle"),
        (LockReason::Manual, "manual"),
        (LockReason::SessionLock, "session-lock"),
        (LockReason::Sleep, "sleep"),
    ] {
        let json = Event::Locked { reason }.to_json();
        assert_eq!(json.get_text("event"), Some("locked"));
        assert_eq!(json.get_text("reason"), Some(name));
    }
    let json = Event::VaultChanged.to_json();
    assert_eq!(json.get_text("event"), Some("vault-changed"));
    let cleared = Event::ClipboardCleared { uuid: "a1".to_string(), field: "url".to_string() };
    let json = cleared.to_json();
    assert_eq!(json.get_text("event"), Some("clipboard-cleared"));
    assert_eq!(json.get_text("uuid"), Some("a1"));
    assert_eq!(json.get_text("field"), Some("url"));
}

#[test]
fn objects_keep_the_later_member() {
    let mut object = JsonObject::new();
    object.insert("a", Json::uint(1));
    object.insert("a", Json::uint(2));
    let json = Json::object(object);
    assert_eq!(json.get_uint("a"), Some(2));
    assert!(json.get("b").is_none());
    assert!(Json::null().get("a").is_none());
    assert!(matches!(Json::signed(-1), Json::Negative(-1)));
    assert!(matches!(Json::signed(1), Json::Uint(1)));
}

// ---------------------------------------------------------------- the client

fn sent(args: &[&str]) -> Json {
    match plan(&args.iter().map(|s| s.to_string()).collect()) {
        ClientPlan::Send(json) => json,
        other => panic!("{other:?}"),
    }
}

#[test]
fn client_requests() {
    for op in ["unlock", "lock", "status", "hello"] {
        let json = sent(&[op]);
        assert_eq!(json.get_uint("id"), Some(1));
        assert_eq!(json.get_text("op"), Some(op));
        assert!(json.get("query").is_none());
    }
    assert_eq!(sent(&[]).get_text("op"), Some("status"));
    assert_eq!(sent(&["list"]).get_text("query"), Some(""));
    assert_eq!(sent(&["list", "git", "x"]).get_text("query"), Some("git"));
    for word in ["-h", "--help", "help"] {
        assert!(matches!(plan(&vec![word.to_string()]), ClientPlan::Help));
    }
    assert!(matches!(plan(&vec!["fly".to_string()]), ClientPlan::Unknown(c) if c == "fly"));
    assert_eq!(unknown_command("fly"), "omarkey: unknown command 'fly' (try --help)");
    assert!(help().starts_with("omarkey <command>\n\n  unlock        decrypt"));
}

#[test]
fn client_sockets() {
    assert_eq!(socket(Some("/s"), Some("/run")), "/s");
    assert_eq!(socket(None, Some("/run")), "/run/omarkey.sock");
    assert_eq!(socket(None, None), "/run/user/1000/omarkey.sock");
}

#[test]
fn client_shows_answers() {
    let good = receive(
        "{\"id\":1,\"ok\":true,\"result\":{\"a\":[true,null,7,-7,1.5,\"x\"],\"b\":{\"c\":\"d\"}}}\n",
    )
    .unwrap();
    match interpret(&good) {
        ClientEnd::Show(result) => {
            match result.get("a") {
                Some(Json::Array(items)) => {
                    assert_eq!(items.len(), 6);
                    assert!(matches!(items[0], Json::Bool(true)));
                    assert!(matches!(items[1], Json::Null));
                    assert!(matches!(items[2], Json::Uint(7)));
                    assert!(matches!(items[3], Json::Negative(-7)));
                    assert!(matches!(&items[4], Json::Fraction(text) if text == "1.5"));
                    assert_eq!(items[5].as_text(), Some("x"));
                }
                other => panic!("{other:?}"),
            }
            assert_eq!(result.get("b").unwrap().get_text("c"), Some("d"));
        }
        other => panic!("{other:?}"),
    }
    let fine = receive("{\"ok\":true}").unwrap();
    assert!(matches!(interpret(&fine), ClientEnd::Fine));
    for (line, message) in [
        (
            "{\"id\":1,\"ok\":false,\"error\":{\"code\":\"busy\",\"message\":\"wait\"}}",
            "omarkey: wait (busy)",
        ),
        ("{\"ok\":1,\"error\":{\"code\":2}}", "omarkey: unknown error (error)"),
        ("{\"error\":\"x\"}", "omarkey: unknown error (error)"),
        ("[true]", "omarkey: unknown error (error)"),
    ] {
        match interpret(&receive(line).unwrap()) {
            ClientEnd::Complain(told) => assert_eq!(told, message),
            other => panic!("{other:?}"),
        }
    }
}

#[test]
fn client_without_an_answer() {
    for line in ["", "\n", "  \n"] {
        assert_eq!(receive(line).unwrap_err(), "omarkey: no response from omarkeyd");
    }
    assert_eq!(
        receive("{").unwrap_err(),
        "omarkey: unparseable response: EOF while parsing an object at line 1 column 1"
    );
}
