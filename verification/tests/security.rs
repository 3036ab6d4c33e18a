use omarkeyd::config::Config;
use omarkeyd::paths::UnixPath;
use omarkeyd::pinentry::{program, read_error, Prompt, PromptStep};
use omarkeyd::security::{
    preflight_runtime_dir, reclaim_stale_socket, runtime_dir, seated_session, sleep_lock_due,
    socket_path, verify_peer, ActivityClock, DirStatus, SessionQuery, SessionRow, SocketProbe,
    SOCKET_MODE,
};

fn path(text: &str) -> UnixPath {
    UnixPath::from_text(text)
}

fn config(text: &str) -> Config {
    Config::from_toml_str(text).unwrap()
}

#[test]
fn socket_paths() {
    let plain = config("vault = \"/v/a.kdbx\"");
    assert_eq!(
        socket_path(&plain, Some(&path("/run/user/1000"))),
        Ok(path("/run/user/1000/omarkey.sock"))
    );
    assert_eq!(
        socket_path(&plain, None),
        Err("XDG_RUNTIME_DIR is not set; cannot place the socket safely".to_string())
    );
    let moved = config("vault = \"/v/a.kdbx\"\nsocket_path = \"/tmp/o.sock\"");
    assert_eq!(socket_path(&moved, None), Ok(path("/tmp/o.sock")));
    assert_eq!(runtime_dir(&path("/tmp/o.sock")), Ok(path("/tmp")));
    assert_eq!(runtime_dir(&path("/")), Err("socket path has no parent directory".to_string()));
    assert_eq!(SOCKET_MODE, 0o600);
}

#[test]
fn runtime_directory_must_be_private() {
    let check = |is_dir: bool, uid: u32, mode: u32| {
        preflight_runtime_dir(&path("/run/x"), Some(DirStatus { is_dir, uid, mode }), 1000)
    };
    assert_eq!(check(true, 1000, 0o40700), Ok(()));
    assert_eq!(check(true, 1000, 0o40755), Ok(()));
    assert_eq!(check(false, 1000, 0o700), Err("/run/x is not a directory".to_string()));
    assert_eq!(check(true, 0, 0o700), Err("/run/x is not owned by uid 1000".to_string()));
    assert_eq!(
        check(true, 1000, 0o41777),
        Err("/run/x is writable by group or other (mode 777)".to_string())
    );
    assert_eq!(
        check(true, 1000, 0o40720),
        Err("/run/x is writable by group or other (mode 720)".to_string())
    );
    assert_eq!(preflight_runtime_dir(&path("/run/x"), None, 1000), Err("stat /run/x".to_string()));
}

#[test]
fn stale_sockets_are_removed() {
    assert_eq!(reclaim_stale_socket(&path("/s"), SocketProbe::Absent), Ok(false));
    assert_eq!(reclaim_stale_socket(&path("/s"), SocketProbe::Dead), Ok(true));
    assert_eq!(
        reclaim_stale_socket(&path("/s"), SocketProbe::Live),
        Err("another omarkeyd is already listening on /s".to_string())
    );
}

#[test]
fn peers_are_checked() {
    assert_eq!(verify_peer(1000, 1000), Ok(()));
    assert_eq!(verify_peer(0, 1000), Err("peer uid 0 != 1000".to_string()));
}

#[test]
fn idle_time() {
    let limited = config("vault = \"/v/a.kdbx\"\nidle_lock_seconds = 60");
    let mut clock = ActivityClock::new();
    assert_eq!(clock.idle_for(1500).as_millis(), 1500);
    assert_eq!(clock.remaining_lock_secs(&limited, 1500), Some(58));
    clock.touch(10_000);
    assert_eq!(clock.idle_for(9_000).as_millis(), 0);
    assert_eq!(clock.remaining_lock_secs(&limited, 10_000), Some(60));
    assert!(!clock.lock_due(&limited, 69_999));
    assert_eq!(clock.remaining_lock_secs(&limited, 69_999), Some(0));
    assert!(clock.lock_due(&limited, 70_000));
    assert_eq!(clock.remaining_lock_secs(&limited, 1_000_000), Some(0));

    let unlimited = config("vault = \"/v/a.kdbx\"\nidle_lock_seconds = 0");
    assert_eq!(clock.remaining_lock_secs(&unlimited, 1_000_000), None);
    assert!(!clock.lock_due(&unlimited, 1_000_000));
}

#[test]
fn sleep_signals() {
    assert!(sleep_lock_due(Some(true)));
    assert!(!sleep_lock_due(Some(false)));
    assert!(sleep_lock_due(None));
}

#[test]
fn session_lookup() {
    let first = SessionQuery::first(Some("3".to_string()));
    assert!(matches!(&first, SessionQuery::ById(id) if id == "3"));
    let second = first.next().unwrap();
    assert!(matches!(second, SessionQuery::ByPid));
    let third = second.next().unwrap();
    assert!(matches!(third, SessionQuery::List));
    assert!(third.next().is_none());
    assert!(matches!(SessionQuery::first(None), SessionQuery::ByPid));

    let row = |uid: u32, seat: &str, path: &str| SessionRow {
        uid,
        seat: seat.to_string(),
        path: path.to_string(),
    };
    let rows = vec![
        row(0, "seat0", "/root"),
        row(1000, "", "/ssh"),
        row(1000, "seat0", "/one"),
        row(1000, "seat0", "/two"),
    ];
    assert_eq!(seated_session(&rows, 1000), Ok("/one".to_string()));
    assert_eq!(
        seated_session(&rows, 7),
        Err("no seated logind session found for this user".to_string())
    );
}

// ---------------------------------------------------------------- pinentry

fn prompt() -> Prompt {
    Prompt::new(&config("vault = \"/home/x/secrets.kdbx\"").vaults[0])
}

fn sent(step: PromptStep) -> String {
    match step {
        PromptStep::Send(command) => command,
        other => panic!("{other:?}"),
    }
}

fn failure(step: PromptStep) -> String {
    match step {
        PromptStep::Failed(why) => why,
        other => panic!("{other:?}"),
    }
}

#[test]
fn pinentry_programs() {
    assert_eq!(program(&config("vault = \"/v\"")), "pinentry");
    assert_eq!(program(&config("vault = \"/v\"\npinentry_program = \"/bin/p\"")), "/bin/p");
    assert_eq!(program(&config("vault = \"/v\"\npinentry_program = \"\"")), "pinentry");
}

#[test]
fn pinentry_gives_the_password() {
    let mut prompt = prompt();
    assert_eq!(prompt.command(), "SETTITLE Omarkey — secrets");
    assert_eq!(sent(prompt.hear("OK")), "SETDESC Unlock the KeePass vault (secrets.kdbx)");
    assert!(matches!(prompt.hear("# a comment"), PromptStep::Wait));
    assert!(matches!(prompt.hear("D early"), PromptStep::Wait));
    assert_eq!(sent(prompt.hear("OK closing")), "SETPROMPT secrets:");
    assert_eq!(sent(prompt.hear("OK")), "GETPIN");
    assert_eq!(prompt.command(), "GETPIN");
    assert!(matches!(prompt.hear("D hunter2"), PromptStep::Wait));
    match prompt.hear("OK") {
        PromptStep::Done(pin) => assert_eq!(pin.expose_secret(), "hunter2"),
        other => panic!("{other:?}"),
    }
}

#[test]
fn pinentry_without_a_password() {
    let mut prompt = prompt();
    prompt.hear("OK");
    prompt.hear("OK");
    prompt.hear("D forgotten");
    prompt.hear("OK");
    assert_eq!(failure(prompt.hear("OK")), "pinentry returned no PIN");
    assert_eq!(prompt.closed(), "pinentry closed unexpectedly");
}

#[test]
fn pinentry_errors() {
    assert_eq!(failure(prompt().hear("ERR 83886179 x")), "cancelled");
    assert_eq!(failure(prompt().hear("ERR 1 Operation CANCELLED")), "cancelled");
    assert_eq!(read_error("3 Gone", "3 cancel"), "cancelled");
    assert_eq!(read_error("3 Cancel", "3 gone"), "pinentry error: 3 Cancel");
    assert_eq!(failure(prompt().hear("ERR 2 no display")), "pinentry error: 2 no display");
    assert!(matches!(prompt().hear("ERRATIC"), PromptStep::Wait));
    assert!(matches!(prompt().hear("OKAY"), PromptStep::Wait));
}
