use omarkeyd::config::{
    build_config, build_vault, expand_tilde, project, Config, ConfigError, ConfigText, LoadError,
    ReadFailure,
};
use omarkeyd::duration::Duration;
use omarkeyd::json::{Json, JsonObject};
use omarkeyd::paths::UnixPath;
use omarkeyd::reader::read_toml;

fn path(text: &str) -> UnixPath {
    UnixPath::from_text(text)
}

fn read(text: &str) -> Result<ConfigText, ReadFailure> {
    Ok(ConfigText { text: text.to_string(), complaint: None })
}

#[test]
fn single_vault_shorthand() {
    let c = Config::from_toml_str(r#"vault = "/home/x/secrets.kdbx""#).unwrap();
    assert_eq!(c.vaults.len(), 1);
    assert_eq!(c.vaults[0].name, "secrets");
    assert_eq!(c.vaults[0].path, path("/home/x/secrets.kdbx"));
    assert_eq!(c.idle_lock, Some(Duration::from_secs(300)));
}

#[test]
fn single_vault_with_keyfile() {
    let c = Config::from_toml_str(
        "vault = \"/v/a.kdbx\"\nkeyfile = \"/v/a.keyx\"\nidle_lock_seconds = 0\n",
    )
    .unwrap();
    assert_eq!(c.vaults[0].keyfile, Some(path("/v/a.keyx")));
    assert_eq!(c.idle_lock, None);
}

#[test]
fn multi_vault_array() {
    let c = Config::from_toml_str(
        r#"
            allow_inline_unlock = true

            [[vault]]
            name = "personal"
            path = "/home/x/personal.kdbx"

            [[vault]]
            path = "/home/x/work.kdbx"
            keyfile = "/home/x/work.keyx"
            "#,
    )
    .unwrap();
    assert_eq!(c.vaults.len(), 2);
    assert_eq!(c.vaults[0].name, "personal");
    assert_eq!(c.vaults[1].name, "work"); // derived from file stem
    assert_eq!(
        c.vaults[1].keyfile,
        Some(path("/home/x/work.keyx"))
    );
    assert!(c.allow_inline_unlock);
    assert_eq!(c.vault_index("work"), Ok(1));
    assert!(c.vault_index("nope").is_err());
}

#[test]
fn rejects_duplicate_names() {
    let err = Config::from_toml_str(
        r#"
            [[vault]]
            name = "a"
            path = "/x/one.kdbx"
            [[vault]]
            name = "a"
            path = "/x/two.kdbx"
            "#,
    )
    .unwrap_err();
    assert!(err.to_string().contains("named `a`"));
}

#[test]
fn rejects_empty() {
    assert!(Config::from_toml_str("idle_lock_seconds = 60").is_err());
}

#[test]
fn defaults_of_all_options() {
    let c = Config::from_toml_str_at_home(r#"vault = "~/v.kdbx""#, Some(&path("/home/x"))).unwrap();
    assert_eq!(c.vaults[0].path, path("/home/x/v.kdbx"));
    assert_eq!(c.vaults[0].name, "v");
    assert_eq!(c.vaults[0].keyfile, None);
    assert_eq!(c.idle_lock, Some(Duration::from_millis(300_000)));
    assert_eq!(c.clipboard_clear, Duration::from_secs(20));
    assert!(!c.allow_inline_unlock);
    assert_eq!(c.pinentry_program, None);
    assert_eq!(c.socket_path, None);
}

#[test]
fn options_that_are_set() {
    let c = Config::from_toml_str_at_home(
        "vault = \"/v/a.kdbx\"\nidle_lock_seconds = 7\nclipboard_clear_seconds = 0\n\
         allow_inline_unlock = false\npinentry_program = \"pinentry-qt\"\n\
         socket_path = \"~/omarkey.sock\"\nno_such_option = [1.5]\n",
        Some(&path("/home/x/")),
    )
    .unwrap();
    assert_eq!(c.idle_lock, Some(Duration::from_secs(7)));
    assert_eq!(c.clipboard_clear, Duration::from_secs(0));
    assert_eq!(c.pinentry_program, Some(String::from("pinentry-qt")));
    assert_eq!(c.socket_path, Some(path("/home/x/omarkey.sock")));
}

#[test]
fn empty_vault_error_in_words() {
    let err = Config::from_toml_str("idle_lock_seconds = 60").unwrap_err();
    assert!(matches!(err, ConfigError::NoVault));
    assert_eq!(
        err.to_string(),
        "no vault configured. Add `vault = \"/path/to.kdbx\"` or one or more [[vault]] tables"
    );
    let err = Config::from_toml_str("vault = []").unwrap_err();
    assert!(matches!(err, ConfigError::NoVault));
}

#[test]
fn relative_paths_are_rejected() {
    let err = Config::from_toml_str(r#"vault = "v.kdbx""#).unwrap_err();
    assert_eq!(
        err.to_string(),
        "vault path `v.kdbx` must be absolute (or start with ~/)"
    );
    // Without a home directory a tilde stays as it is.
    let err = Config::from_toml_str_at_home(r#"vault = "~/v.kdbx""#, None).unwrap_err();
    assert_eq!(
        err.to_string(),
        "vault path `~/v.kdbx` must be absolute (or start with ~/)"
    );
}

#[test]
fn wrong_shapes_are_rejected() {
    for text in [
        "vault = 1",
        "vault = \"/v\"\nkeyfile = 1",
        "vault = \"/v\"\nidle_lock_seconds = -1",
        "vault = \"/v\"\nidle_lock_seconds = \"5\"",
        "vault = \"/v\"\nclipboard_clear_seconds = 1.5",
        "vault = \"/v\"\nallow_inline_unlock = 1",
        "vault = \"/v\"\npinentry_program = true",
        "vault = \"/v\"\nsocket_path = 1979-05-27",
        "vault = [1]",
        "[[vault]]\nname = \"a\"",
        "[[vault]]\npath = \"/v\"\ncolour = \"red\"",
        "[[vault]]\npath = \"/v\"\nname = 3",
        "[[vault]]\npath = \"/v\"\n[[vault]]\nname = \"b\"",
        "vault = [[\"a\", \"/v\"]]",
    ] {
        let err = Config::from_toml_str(text).unwrap_err();
        assert!(matches!(err, ConfigError::Shape(_)), "{text}: {err:?}");
        assert_eq!(
            err.to_string(),
            "a setting has the wrong type, or a [[vault]] table the wrong keys"
        );
    }
}

#[test]
fn syntax_errors_carry_the_message_of_the_parser() {
    let err = Config::from_toml_str("vault = ").unwrap_err();
    assert!(matches!(err, ConfigError::Syntax(_)));
    assert!(err.to_string().starts_with("TOML parse error at line 1"));
    // A key that is set twice is a syntax error.
    let err = Config::from_toml_str("vault = \"/a\"\nvault = \"/b\"").unwrap_err();
    assert!(matches!(err, ConfigError::Syntax(_)));
}

#[test]
fn a_vault_written_as_a_list() {
    let c = Config::from_toml_str(r#"vault = [["n", "/v/a.kdbx", "/v/a.keyx"]]"#).unwrap();
    assert_eq!(c.vaults[0].name, "n");
    assert_eq!(c.vaults[0].path, path("/v/a.kdbx"));
    assert_eq!(c.vaults[0].keyfile, Some(path("/v/a.keyx")));
}

#[test]
fn names_of_vaults() {
    let name = |name: Option<&str>, path: &str| build_vault(name, path, None, None).unwrap().name;
    assert_eq!(name(Some("  work \n"), "/v/a.kdbx"), "work");
    assert_eq!(name(Some("   "), "/v/a.kdbx"), "a");
    assert_eq!(name(None, "/v/.kdbx"), ".kdbx");
    assert_eq!(name(None, "/v/a.b.kdbx"), "a.b");
    assert_eq!(name(None, "/v/a.kdbx/"), "a");
    assert_eq!(name(None, "/"), "vault");
    assert_eq!(name(None, "/v/.."), "vault");
}

#[test]
fn vault_index_lists_names() {
    let c = Config::from_toml_str(
        "[[vault]]\npath = \"/v/a.kdbx\"\n[[vault]]\npath = \"/v/b.kdbx\"\n",
    )
    .unwrap();
    assert_eq!(c.vault_index("a"), Ok(0));
    assert_eq!(c.vault_index("b"), Ok(1));
    assert_eq!(
        c.vault_index("x"),
        Err(String::from("no vault named `x` (have: a, b)"))
    );
}

#[test]
fn tilde_expansion() {
    let home = path("/home/x");
    assert_eq!(expand_tilde("~/a/b", Some(&home)), path("/home/x/a/b"));
    assert_eq!(expand_tilde("~/a/b", None), path("~/a/b"));
    assert_eq!(expand_tilde("~x/a", Some(&home)), path("~x/a"));
    assert_eq!(expand_tilde("/a/~/b", Some(&home)), path("/a/~/b"));
    // What follows may itself be absolute.
    assert_eq!(expand_tilde("~//a", Some(&home)), path("/a"));
}

#[test]
fn homes_that_are_not_text() {
    let home = UnixPath::from_bytes(b"/h\xff".to_vec());
    let c = Config::from_toml_str_at_home("vault = \"~/a.kdbx\"", Some(&home)).unwrap();
    assert_eq!(c.vaults[0].path.as_bytes(), b"/h\xff/a.kdbx");
    assert_eq!(c.vaults[0].path.display(), "/h\u{fffd}/a.kdbx");
    assert_eq!(c.vaults[0].name, "a");
    let odd = UnixPath::from_bytes(b"h\xff".to_vec());
    let err = Config::from_toml_str_at_home("vault = \"~/a.kdbx\"", Some(&odd)).unwrap_err();
    assert_eq!(
        err.to_string(),
        "vault path `h\u{fffd}/a.kdbx` must be absolute (or start with ~/)"
    );
    let file = Config::config_path_in(Some(&home)).unwrap();
    assert_eq!(file.as_bytes(), b"/h\xff/omarkeyd.toml");
}

#[test]
fn home_counts_behind_a_tilde_only() {
    let text = "vault = \"/v/~/a.kdbx\"\nkeyfile = \"~x\"\nsocket_path = \"/s\"";
    let a = Config::from_toml_str_at_home(text, Some(&path("/home/a"))).unwrap();
    let b = Config::from_toml_str_at_home(text, None).unwrap();
    assert_eq!(format!("{a:?}"), format!("{b:?}"));
}

#[test]
fn home_directory_of_the_system() {
    let text = r#"vault = "~/v.kdbx""#;
    match Config::from_toml_str(text) {
        Ok(c) => {
            assert!(c.vaults[0].path.display().ends_with("/v.kdbx"));
            assert!(c.vaults[0].path.display().starts_with('/'));
        }
        Err(err) => assert!(matches!(err, ConfigError::RelativePath(_))),
    }
}

#[test]
fn settings_from_a_document() {
    let document = |idle: Json| {
        let mut document = JsonObject::new();
        document.insert("vault", Json::text("~/a.kdbx"));
        document.insert("idle_lock_seconds", idle);
        document.insert("allow_inline_unlock", Json::truth(true));
        document.insert("colour", Json::array(vec![Json::null()]));
        Json::object(document)
    };
    let c = build_config(&document(Json::uint(5)), "no", Some(&path("/h"))).unwrap();
    assert_eq!(c.vaults[0].path, path("/h/a.kdbx"));
    assert_eq!(c.idle_lock, Some(Duration::from_secs(5)));
    assert!(c.allow_inline_unlock);
    let err = build_config(&document(Json::signed(-5)), "no", None).unwrap_err();
    assert!(matches!(&err, ConfigError::Shape(why) if why == "no"));
    assert_eq!(err.to_string(), "no");
}

#[test]
fn documents_are_read() {
    let text = "a = [1, true, \"x\", 1.5, { b = \"c\" }]\n[d]\ne = -2\nf = 1979-05-27\n";
    let table = read_toml(text).unwrap();
    let items = table.get("a").unwrap().as_array().unwrap();
    assert_eq!(items.len(), 5);
    assert_eq!(items[0].as_uint(), Some(1));
    assert_eq!(items[1].as_truth(), Some(true));
    assert_eq!(items[2].as_text(), Some("x"));
    assert!(matches!(items[3], Json::Fraction(_)));
    assert_eq!(items[4].get_text("b"), Some("c"));
    let sub = table.get("d").unwrap();
    assert!(matches!(sub.get("e"), Some(Json::Negative(-2))));
    assert!(matches!(sub.get("f"), Some(Json::Object(_))));
    assert!(table.get("e").is_none());
    let mut names = table.names().unwrap();
    names.sort();
    assert_eq!(names, ["a", "d"]);
    assert!(items[0].names().is_none());
}

#[test]
fn unknown_tables_are_passed_over_whatever_their_keys() {
    let c = Config::from_toml_str(
        "vault = \"/v/a.kdbx\"\n[other]\n\"$__toml_private_datetime\" = \"x\"\n",
    )
    .unwrap();
    assert_eq!(c.vaults[0].name, "a");
}

#[test]
fn config_file_of_the_user() {
    assert_eq!(project(), ("com", "xavidiaz", "omarkey"));
    assert_eq!(
        Config::config_path_in(Some(&path("/home/x/.config/omarkey"))).unwrap(),
        path("/home/x/.config/omarkey/omarkeyd.toml")
    );
    let err = Config::config_path_in(None).unwrap_err();
    assert_eq!(err.to_string(), "cannot determine config directory");
    match Config::config_path() {
        Ok(path) => assert!(path.display().ends_with("omarkey/omarkeyd.toml")),
        Err(err) => assert!(matches!(err, LoadError::NoConfigDir)),
    }
}

#[test]
fn loading_the_file() {
    let file = path("/c.toml");
    let c = Config::load(&file, read(r#"vault = "/v/a.kdbx""#)).unwrap();
    assert_eq!(c.vaults[0].name, "a");

    let err = Config::load(&file, Err(ReadFailure::NotFound)).unwrap_err();
    assert_eq!(
        err.to_string(),
        "no config at /c.toml. Create it with at least:\n\n  vault = \"/home/you/secrets.kdbx\"\n"
    );
    assert_eq!(err.cause(), None);

    let why = String::from("permission denied");
    let err = Config::load(&file, Err(ReadFailure::Other(why))).unwrap_err();
    assert_eq!(err.to_string(), "reading /c.toml");
    assert_eq!(err.cause(), Some(String::from("permission denied")));

    let err = Config::load(&file, read("vault = \"v\"")).unwrap_err();
    assert_eq!(err.to_string(), "parsing /c.toml");
    assert_eq!(
        err.cause(),
        Some(String::from("vault path `v` must be absolute (or start with ~/)"))
    );
}

#[test]
fn wrong_shapes_are_told_in_the_words_of_the_parser() {
    let told = |text: &str| {
        let complaint = Some(String::from("TOML parse error at line 1, column 9"));
        Ok(ConfigText { text: text.to_string(), complaint })
    };
    let file = path("/c.toml");
    let err = Config::load(&file, told("vault = 1")).unwrap_err();
    assert_eq!(err.cause(), Some(String::from("TOML parse error at line 1, column 9")));
    // It is heard only then.
    assert!(Config::load(&file, told("vault = \"/v/a.kdbx\"")).is_ok());
    let err = Config::load(&file, told("vault = []")).unwrap_err();
    assert!(matches!(err, LoadError::Invalid(_, ConfigError::NoVault)));
}
