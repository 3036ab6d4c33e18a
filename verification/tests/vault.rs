use omarkeyd::config::Config;
use omarkeyd::entry::{CopyField, Entry, TypeToken, TypeTokenRef};
use omarkeyd::ipc::{Event, IpcError, LockReason};
use omarkeyd::json::Json;
use omarkeyd::kdbx::{walk_group, KdbxEntry, KdbxGroup, KdbxNode};
use omarkeyd::search::{fuzzy_score, lower, rank, score_lowered};
use omarkeyd::secret::{Secret, SecretFields};
use omarkeyd::totp::Totp;
use omarkeyd::vault::{KdbxError, UnlockOutcome, UnlockedVault, VaultState, VaultWatch};

const URI: &str = "otpauth://totp/GitHub:octocat?secret=HXDMVJECJJWSRB3HWIZR4IFUGFTMXBOZ\
&issuer=GitHub&algorithm=SHA1&digits=6&period=30";

fn secret(text: &str) -> Secret {
    Secret::new(text.to_string())
}

fn entry(uuid: &str, title: &str) -> Entry {
    Entry {
        uuid: uuid.to_string(),
        title: title.to_string(),
        username: String::new(),
        url: String::new(),
        group: String::new(),
        tags: Vec::new(),
        password: None,
        notes: None,
        string_fields: SecretFields::new(),
        totp: None,
    }
}

fn github() -> Entry {
    let mut fields = SecretFields::new();
    fields.insert("pin".to_string(), secret("1234"));
    Entry {
        uuid: "a1".to_string(),
        title: "GitHub".to_string(),
        username: "octocat".to_string(),
        url: "https://github.com".to_string(),
        group: "Dev".to_string(),
        tags: vec!["work".to_string()],
        password: Some(secret("hunter2")),
        notes: None,
        string_fields: fields,
        totp: Totp::from_uri(URI.to_string()),
    }
}

fn unlocked(entries: Vec<Entry>) -> VaultState {
    VaultState::Unlocked(UnlockedVault::new(entries))
}

fn text(json: &Json, name: &str) -> String {
    json.get_text(name).unwrap().to_string()
}

// ---------------------------------------------------------------- secrets

#[test]
fn secrets_keep_their_text() {
    let s = secret("hunter2");
    assert_eq!(s.expose_secret(), "hunter2");
    assert_eq!(s.duplicate().expose_secret(), "hunter2");
    assert!(s.same_as(&secret("hunter2")));
    assert!(!s.same_as(&secret("hunter3")));
    assert!(!format!("{s:?}").contains("hunter2"));
}

#[test]
fn named_secrets_the_later_wins() {
    let mut fields = SecretFields::new();
    fields.insert("a".to_string(), secret("1"));
    fields.insert("b".to_string(), secret("2"));
    fields.insert("a".to_string(), secret("3"));
    assert_eq!(fields.get("a").unwrap().expose_secret(), "3");
    assert_eq!(fields.get("b").unwrap().expose_secret(), "2");
    assert!(fields.get("c").is_none());
    let rest = fields.without(&vec!["a".to_string()]);
    assert!(rest.get("a").is_none());
    assert_eq!(rest.get("b").unwrap().expose_secret(), "2");
}

// ---------------------------------------------------------------- one-time passwords

#[test]
fn totp_settings_are_read() {
    let totp = Totp::from_uri(URI.to_string()).unwrap();
    assert_eq!(totp.step(), 30);
    assert_eq!(totp.digits(), 6);
    let code = totp.code_at(59);
    assert_eq!(code.expose_secret().len(), 6);
    assert!(code.expose_secret().bytes().all(|b| b.is_ascii_digit()));
    // The code is that of the whole period.
    assert_eq!(totp.code_at(30).expose_secret(), code.expose_secret());
    assert_ne!(totp.code_at(60).expose_secret(), code.expose_secret());
}

#[test]
fn totp_codes_of_the_standard() {
    // The test secret of RFC 6238, with its eight digits.
    let uri = "otpauth://totp/x?secret=GEZDGNBVGY3TQOJQGEZDGNBVGY3TQOJQ&digits=8";
    let totp = Totp::from_uri(uri.to_string()).unwrap();
    assert_eq!(totp.digits(), 8);
    assert_eq!(totp.code_at(59).expose_secret(), "94287082");
    assert_eq!(totp.code_at(1111111109).expose_secret(), "07081804");
}

#[test]
fn totp_uri_is_written_in_canonical_form() {
    let totp = Totp::from_uri(URI.to_string()).unwrap();
    assert_eq!(
        totp.url().expose_secret(),
        "otpauth://totp/GitHub:octocat?secret=HXDMVJECJJWSRB3HWIZR4IFUGFTMXBOZ&issuer=GitHub"
    );
}

#[test]
fn bad_totp_uris_are_rejected() {
    for uri in [
        "",
        "secret",
        "https://totp/x?secret=GEZDGNBVGY3TQOJQGEZDGNBVGY3TQOJQ",
        "otpauth://hotp/x?secret=GEZDGNBVGY3TQOJQGEZDGNBVGY3TQOJQ",
        "otpauth:///x?secret=GEZDGNBVGY3TQOJQGEZDGNBVGY3TQOJQ",
        "otpauth://totp/x",
        "otpauth://totp/x?secret=GEZDGNBVGY3TQOJQGEZDGNBVGY3TQOJQ&digits=10",
        "otpauth://totp/x?secret=GEZDGNBVGY3TQOJQGEZDGNBVGY3TQOJQ&period=0",
    ] {
        assert!(Totp::from_uri(uri.to_string()).is_none(), "{uri}");
    }
    for uri in [
        "otpauth://totp?secret=GEZDGNBVGY3TQOJQGEZDGNBVGY3TQOJQ",
        "  OTPAUTH://totp/x?secret=GEZDGNBVGY3TQOJQGEZDGNBVGY3TQOJQ ",
    ] {
        assert!(Totp::from_uri(uri.to_string()).is_some(), "{uri}");
    }
    // The host is read letter for letter, and white space that no URI knows is not
    // passed over.
    for uri in [
        "otpauth://TOTP/x?secret=GEZDGNBVGY3TQOJQGEZDGNBVGY3TQOJQ",
        "\u{a0}otpauth://totp/x?secret=GEZDGNBVGY3TQOJQGEZDGNBVGY3TQOJQ",
    ] {
        assert!(Totp::from_uri(uri.to_string()).is_none(), "{uri}");
    }
}

// ---------------------------------------------------------------- fields

#[test]
fn field_names() {
    let name = |s: &str| CopyField::from_str(s).unwrap().as_str();
    assert_eq!(name("PASS"), "password");
    assert_eq!(name("password"), "password");
    assert_eq!(name("User"), "username");
    assert_eq!(name("url"), "url");
    assert_eq!(name("note"), "notes");
    assert_eq!(name("OTP"), "totp");
    assert_eq!(name("otpauth"), "otp-uri");
    assert_eq!(name("My PIN"), "My PIN");
    assert!(matches!(CopyField::from_str("My PIN"), Ok(CopyField::Custom(s)) if s == "My PIN"));
    let err = CopyField::from_str("").unwrap_err();
    assert_eq!(err.code(), "bad-request");
    assert_eq!(err.to_string(), "empty field name");
}

#[test]
fn secrets_of_an_entry() {
    let vault = unlocked(vec![github()]);
    let now = Ok(59);
    let get = |field: CopyField| {
        vault
            .secret_for("a1", &field, &now)
            .map(|s| s.expose_secret().to_string())
            .map_err(|e| e.to_string())
    };
    assert_eq!(get(CopyField::Password), Ok("hunter2".to_string()));
    assert_eq!(get(CopyField::Username), Ok("octocat".to_string()));
    assert_eq!(get(CopyField::Url), Ok("https://github.com".to_string()));
    assert_eq!(get(CopyField::Notes), Err("no entry with uuid notes".to_string()));
    assert_eq!(get(CopyField::Totp).unwrap().len(), 6);
    assert!(get(CopyField::OtpUri).unwrap().starts_with("otpauth://totp/GitHub:octocat?"));
    assert_eq!(get(CopyField::Custom("pin".to_string())), Ok("1234".to_string()));
    assert_eq!(
        get(CopyField::Custom("PIN".to_string())),
        Err("no entry with uuid PIN".to_string())
    );

    let broken = Err("second time provided was later than self".to_string());
    let err = vault.secret_for("a1", &CopyField::Totp, &broken).unwrap_err();
    assert_eq!(err.code(), "vault-error");
    assert_eq!(
        err.to_string(),
        "vault error: second time provided was later than self"
    );

    let err = vault.secret_for("zz", &CopyField::Url, &now).unwrap_err();
    assert_eq!(err.to_string(), "no entry with uuid zz");
    let bare = unlocked(vec![entry("b", "B")]);
    for (field, missing) in [
        (CopyField::Password, "password"),
        (CopyField::Notes, "notes"),
        (CopyField::Totp, "totp"),
        (CopyField::OtpUri, "totp"),
    ] {
        let err = bare.secret_for("b", &field, &now).unwrap_err();
        assert_eq!(err.to_string(), format!("no entry with uuid {missing}"));
    }
}

#[test]
fn public_fields_only() {
    let vault = unlocked(vec![github()]);
    let get = |fields: &[&str]| {
        let fields: Vec<String> = fields.iter().map(|s| s.to_string()).collect();
        vault.get_fields("a1", &fields)
    };
    let json = get(&["username", "url", "title", "group", "nothing"]).unwrap();
    assert_eq!(text(&json, "username"), "octocat");
    assert_eq!(text(&json, "url"), "https://github.com");
    assert_eq!(text(&json, "title"), "GitHub");
    assert_eq!(text(&json, "group"), "Dev");
    assert!(matches!(json.get("nothing"), Some(Json::Null)));
    assert!(matches!(get(&[]).unwrap(), Json::Object(o) if o.members().is_empty()));
    for name in ["password", "notes", "pin"] {
        let err = get(&["username", name, "url"]).unwrap_err();
        assert_eq!(err.code(), "unsupported");
        assert_eq!(
            err.to_string(),
            format!("`{name}` is a secret; use copy or type")
        );
    }
    // The first secret counts.
    let err = get(&["notes", "password"]).unwrap_err();
    assert_eq!(err.to_string(), "`notes` is a secret; use copy or type");
}

#[test]
fn totp_metadata() {
    let vault = unlocked(vec![github(), entry("b", "B")]);
    let json = vault.totp_meta("a1", &Ok(47)).unwrap();
    assert!(matches!(json.get("hasTotp"), Some(Json::Bool(true))));
    assert_eq!(json.get_uint("period"), Some(30));
    assert_eq!(json.get_uint("remainingSec"), Some(13));
    assert_eq!(json.get_uint("digits"), Some(6));
    let json = vault.totp_meta("a1", &Ok(60)).unwrap();
    assert_eq!(json.get_uint("remainingSec"), Some(30));
    let json = vault.totp_meta("a1", &Err("no clock".to_string())).unwrap();
    assert_eq!(json.get_uint("remainingSec"), Some(30));
    let json = vault.totp_meta("b", &Ok(47)).unwrap();
    assert!(matches!(json.get("hasTotp"), Some(Json::Bool(false))));
    assert!(json.get("period").is_none());
}

// ---------------------------------------------------------------- typing

fn typed(tokens: &[TypeToken]) -> Vec<String> {
    tokens
        .iter()
        .map(|token| match token.expose() {
            TypeTokenRef::Text(text) => format!("text {text}"),
            TypeTokenRef::Key(key) => format!("key {key}"),
            TypeTokenRef::Delay(span) => format!("delay {}", span.as_millis()),
        })
        .collect()
}

#[test]
fn sequences_are_resolved() {
    let vault = unlocked(vec![github()]);
    let tokens = vault
        .resolve_type_sequence("a1", " username TAB ~250 Password\treturn esc pin ", &Ok(0))
        .unwrap();
    assert_eq!(
        typed(&tokens),
        [
            "text octocat",
            "key Tab",
            "delay 250",
            "text hunter2",
            "key Return",
            "key Escape",
            "text 1234"
        ]
    );
    // A custom field is meant by its own name, a standard one in any letter case.
    let mut mixed = entry("u1", "mixed");
    mixed.string_fields.insert("ApiKey".to_string(), secret("k1"));
    let mixed = unlocked(vec![mixed]);
    let tokens = mixed.resolve_type_sequence("u1", "ApiKey UserName", &Ok(0)).unwrap();
    assert_eq!(typed(&tokens), ["text k1", "text "]);
    let err = mixed.resolve_type_sequence("u1", "apikey", &Ok(0)).unwrap_err();
    assert_eq!(err.to_string(), "no entry with uuid apikey");
    let tokens = vault.resolve_type_sequence("a1", "enter escape", &Ok(0)).unwrap();
    assert_eq!(typed(&tokens), ["key Return", "key Escape"]);
    assert!(vault.resolve_type_sequence("a1", "  ", &Ok(0)).unwrap().is_empty());
}

#[test]
fn bad_sequences_are_rejected() {
    let vault = unlocked(vec![github()]);
    let err = vault
        .resolve_type_sequence("a1", "username ~fast notes", &Ok(0))
        .unwrap_err();
    assert_eq!(err.code(), "bad-request");
    assert_eq!(err.to_string(), "bad delay token `~fast`");
    let err = vault
        .resolve_type_sequence("a1", "username notes ~fast", &Ok(0))
        .unwrap_err();
    assert_eq!(err.to_string(), "no entry with uuid notes");
    let err = vault.resolve_type_sequence("a1", "~", &Ok(0)).unwrap_err();
    assert_eq!(err.to_string(), "bad delay token `~`");
}

// ---------------------------------------------------------------- search

#[test]
fn scores() {
    let e = github();
    assert_eq!(fuzzy_score("", &e), Some(0));
    assert_eq!(fuzzy_score("GIT", &e), Some(125));
    assert_eq!(fuzzy_score("hub", &e), Some(97));
    assert_eq!(fuzzy_score("octo", &e), Some(65));
    assert_eq!(fuzzy_score("cat", &e), Some(36));
    assert_eq!(fuzzy_score("https", &e), Some(55));
    assert_eq!(fuzzy_score("dev", &e), Some(45));
    assert_eq!(fuzzy_score("work", &e), Some(35));
    assert_eq!(fuzzy_score("ork", &e), Some(9));
    assert_eq!(fuzzy_score("ghb", &e), Some(5));
    assert_eq!(fuzzy_score("zzz", &e), None);
    let lowered = lower(&e);
    assert_eq!(lowered.title, "github");
    assert_eq!(score_lowered("git", &lowered), Some(125));
    assert_eq!(score_lowered("GIT", &lowered), None);
    // Positions count bytes of the lower-case text.
    assert_eq!(fuzzy_score("x", &entry("u", "Äx")), Some(98));
}

#[test]
fn ranking_by_score_then_title() {
    let entries = vec![
        entry("1", "b git"),
        entry("2", "GitLab"),
        entry("3", "mail"),
        entry("4", "GitHub"),
        entry("5", "a git"),
        entry("6", "GitHub"),
    ];
    assert_eq!(rank(&entries, "git"), [3, 5, 1, 4, 0]);
    assert_eq!(rank(&entries, ""), [3, 5, 1, 4, 0, 2]);
    assert!(rank(&entries, "zzz").is_empty());
}

#[test]
fn lists_are_limited() {
    let vault = unlocked(vec![entry("1", "c"), entry("2", "a"), entry("3", "b")]);
    let titles = |query: &str, limit: u64| {
        vault
            .list(query, limit)
            .unwrap()
            .into_iter()
            .map(|m| m.title)
            .collect::<Vec<_>>()
    };
    assert_eq!(titles("", 200), ["a", "b", "c"]);
    assert_eq!(titles("", 2), ["a", "b"]);
    assert_eq!(titles("", 0), Vec::<String>::new());
    assert_eq!(titles("B", 200), ["b"]);
}

#[test]
fn metadata_of_an_entry() {
    let meta = &unlocked(vec![github()]).list("", 1).unwrap()[0];
    let json = meta.to_json();
    assert_eq!(text(&json, "uuid"), "a1");
    assert_eq!(text(&json, "title"), "GitHub");
    assert_eq!(text(&json, "username"), "octocat");
    assert_eq!(text(&json, "group"), "Dev");
    assert_eq!(text(&json, "url"), "https://github.com");
    assert!(matches!(json.get("hasPassword"), Some(Json::Bool(true))));
    assert!(matches!(json.get("hasTotp"), Some(Json::Bool(true))));
    assert_eq!(json.get_texts("tags"), ["work"]);
    assert!(!format!("{json:?}").contains("hunter2"));
}

// ---------------------------------------------------------------- state

#[test]
fn unlocking_and_locking() {
    let config = Config::from_toml_str("vault = \"/v/a.kdbx\"").unwrap();
    let mut vault = VaultState::locked(&config);
    assert!(vault.is_locked());
    assert_eq!(vault.entry_count(), 0);
    assert!(matches!(vault.list("", 1), Err(IpcError::Locked)));
    assert!(matches!(vault.get_fields("a1", &Vec::new()), Err(IpcError::Locked)));

    assert!(matches!(vault.unlock(), Ok(None)));
    assert!(vault.is_unlocking());
    assert!(vault.is_locked());
    assert!(matches!(vault.unlock(), Err(IpcError::Busy)));
    let opened = UnlockOutcome::Tried(Ok(vec![github(), entry("b", "B")]));
    assert_eq!(vault.finish_unlock(opened).unwrap(), 2);
    assert!(!vault.is_locked());
    assert_eq!(vault.entry_count(), 2);
    assert!(matches!(vault.unlock(), Ok(Some(2))));

    let event = vault.lock_now(LockReason::Idle);
    assert!(matches!(event, Some(Event::Locked { reason: LockReason::Idle })));
    assert!(vault.is_locked());
    assert!(vault.lock_now(LockReason::Manual).is_none());
}

#[test]
fn failed_unlocks_stay_locked() {
    for (attempt, code, message) in [
        (
            UnlockOutcome::PromptFailed("cancelled".to_string()),
            "io-error",
            "pinentry: cancelled",
        ),
        (
            UnlockOutcome::Tried(Err(KdbxError::WrongKey)),
            "auth-failed",
            "wrong master password or key file",
        ),
        (
            UnlockOutcome::Tried(Err(KdbxError::Other("bad header".to_string()))),
            "vault-error",
            "vault error: bad header",
        ),
    ] {
        let mut vault = VaultState::Unlocking;
        let err = vault.finish_unlock(attempt).unwrap_err();
        assert_eq!(err.code(), code);
        assert_eq!(err.to_string(), message);
        assert!(vault.is_locked() && !vault.is_unlocking());
    }
}

#[test]
fn locking_while_unlocking_is_announced() {
    let mut vault = VaultState::Unlocking;
    assert!(vault.lock_now(LockReason::Sleep).is_some());
    assert!(!vault.is_unlocking());
}

#[test]
fn the_first_of_two_equal_identifiers_counts() {
    let vault = unlocked(vec![entry("x", "first"), entry("x", "second")]);
    let json = vault.get_fields("x", &vec!["title".to_string()]).unwrap();
    assert_eq!(text(&json, "title"), "first");
}

#[test]
fn changes_of_the_file_are_announced_once() {
    let mut watch = VaultWatch::new();
    assert!(watch.tick().is_none());
    watch.note_change();
    watch.note_change();
    assert!(matches!(watch.tick(), Some(Event::VaultChanged)));
    assert!(watch.tick().is_none());
}

// ---------------------------------------------------------------- databases

fn node(uuid: &str, fields: &[(&str, &str)]) -> KdbxNode {
    let mut all = SecretFields::new();
    for (name, value) in fields {
        all.insert(name.to_string(), secret(value));
    }
    KdbxNode::Entry(KdbxEntry {
        uuid: uuid.to_string(),
        tags: vec!["t".to_string()],
        fields: all,
    })
}

fn group(name: &str, children: Vec<KdbxNode>) -> KdbxGroup {
    KdbxGroup { name: name.to_string(), children }
}

#[test]
fn group_trees_are_flattened() {
    let sub = group("Sub", vec![node("3", &[("Title", "deep")])]);
    let dev = group(
        "Dev",
        vec![
            node(
                "1",
                &[
                    ("Title", "GitHub"),
                    ("UserName", "octocat"),
                    ("URL", "https://github.com"),
                    ("Password", "hunter2"),
                    ("Notes", "n"),
                    ("otp", URI),
                    ("PIN", "1234"),
                ],
            ),
            KdbxNode::Group(sub),
            node("4", &[("otp", "not a uri")]),
        ],
    );
    let root = group("Root", vec![KdbxNode::Group(dev), node("2", &[("Title", "top")])]);
    let entries = walk_group(&root);
    let ids: Vec<&str> = entries.iter().map(|e| e.uuid.as_str()).collect();
    assert_eq!(ids, ["1", "3", "4", "2"]);
    let groups: Vec<&str> = entries.iter().map(|e| e.group.as_str()).collect();
    assert_eq!(groups, ["Dev", "Dev/Sub", "Dev", ""]);

    let e = &entries[0];
    assert_eq!(e.title, "GitHub");
    assert_eq!(e.username, "octocat");
    assert_eq!(e.url, "https://github.com");
    assert_eq!(e.tags, ["t"]);
    assert_eq!(e.password.as_ref().unwrap().expose_secret(), "hunter2");
    assert_eq!(e.notes.as_ref().unwrap().expose_secret(), "n");
    assert_eq!(e.totp.as_ref().unwrap().step(), 30);
    assert_eq!(e.string_fields.get("PIN").unwrap().expose_secret(), "1234");
    assert!(e.string_fields.get("Title").is_none());
    assert!(e.string_fields.get("otp").is_none());

    assert_eq!(entries[2].title, "");
    assert!(entries[2].password.is_none());
    assert!(entries[2].totp.is_none());
}
