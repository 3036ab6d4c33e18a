use omarkeyd::actions::{
    type_tokens, which, wl_clear, wl_copy, wl_paste, Clipboard, Invocation, RunFailure, TypeOutcome,
    TypeRun, TypeStep, Typing, WipeStep,
};
use omarkeyd::duration::Duration;
use omarkeyd::entry::{CopyField, TypeToken};
use omarkeyd::ipc::Event;
use omarkeyd::secret::Secret;

fn secret(text: &str) -> Secret {
    Secret::new(text.to_string())
}

fn line(command: &Invocation) -> (String, Option<String>) {
    let mut line = vec![command.program.clone()];
    line.extend(command.args.iter().cloned());
    let input = command.input.as_ref().map(|s| s.expose_secret().to_string());
    (line.join(" "), input)
}

#[test]
fn commands_hand_secrets_over_on_stdin() {
    let input = Some("hunter2".to_string());
    assert_eq!(line(&wl_copy(&secret("hunter2"), false)), ("wl-copy".to_string(), input.clone()));
    assert_eq!(
        line(&wl_copy(&secret("hunter2"), true)),
        ("wl-copy --primary".to_string(), input)
    );
    assert_eq!(line(&wl_paste()), ("wl-paste --no-newline".to_string(), None));
    assert_eq!(line(&wl_clear()), ("wl-copy --clear".to_string(), None));
    assert_eq!(line(&which("wtype")), ("sh -c command -v wtype".to_string(), None));
}

fn tokens() -> Vec<TypeToken> {
    vec![
        TypeToken::Text(secret("hunter2")),
        TypeToken::Key("Tab".to_string()),
        TypeToken::Delay(Duration::from_millis(250)),
    ]
}

fn process(typing: Typing) -> (String, Option<String>) {
    match typing {
        Typing::Step(TypeStep::Run(command)) => line(&command),
        other => panic!("{other:?}"),
    }
}

fn outcome(typing: Typing) -> TypeOutcome {
    match typing {
        Typing::Done(outcome) => outcome,
        other => panic!("{other:?}"),
    }
}

#[test]
fn tokens_are_typed_one_by_one() {
    let (mut run, typing) = type_tokens(tokens(), true);
    assert_eq!(process(typing), ("wtype -s 12 -".to_string(), Some("hunter2".to_string())));
    assert_eq!(process(run.next(Ok(()))), ("wtype -k Tab".to_string(), None));
    match run.next(Ok(())) {
        Typing::Step(TypeStep::Sleep(span)) => assert_eq!(span.as_millis(), 250),
        other => panic!("{other:?}"),
    }
    assert!(!run.is_over());
    assert!(matches!(outcome(run.next(Ok(()))), TypeOutcome::Typed));
    assert!(run.is_over());

    let (run, typing) = TypeRun::start(Vec::new(), true);
    assert!(matches!(outcome(typing), TypeOutcome::Typed));
    assert!(run.is_over());
}

#[test]
fn nothing_is_typed_without_wtype() {
    let (run, typing) = type_tokens(tokens(), false);
    assert!(matches!(outcome(typing), TypeOutcome::NoWtype));
    assert!(run.is_over());
}

#[test]
fn the_first_failure_ends_the_typing() {
    let (mut run, _) = type_tokens(tokens(), true);
    let ended = outcome(run.next(Err(RunFailure::Stdin)));
    assert!(matches!(ended, TypeOutcome::TextFailed(RunFailure::Stdin)));
    assert!(run.is_over());

    for (failure, told) in [
        (RunFailure::Exit("status".to_string()), Some("status".to_string())),
        (RunFailure::Spawn, None),
        (RunFailure::Io("x".to_string()), None),
    ] {
        let (mut run, _) = type_tokens(tokens(), true);
        run.next(Ok(()));
        match outcome(run.next(Err(failure))) {
            TypeOutcome::KeyFailed(key, status) => {
                assert_eq!(key, "Tab");
                assert_eq!(status, told);
            }
            other => panic!("{other:?}"),
        }
        assert!(run.is_over());
    }
}

#[test]
fn a_newer_copy_supersedes_a_wipe() {
    let mut clipboard = Clipboard::new();
    let after = Duration::from_secs(20);
    let old = clipboard.copy("a1", &CopyField::Password, secret("one"), after).unwrap();
    assert_eq!(clipboard.wipe_due(&old), WipeStep::ReadClipboard);
    let new = clipboard.copy("a1", &CopyField::Totp, secret("two"), after).unwrap();
    assert_eq!(clipboard.wipe_due(&old), WipeStep::Leave);
    assert_eq!(clipboard.wipe_due(&new), WipeStep::ReadClipboard);
    assert_eq!(new.after.as_millis(), 20_000);
    // A copy that is never wiped supersedes the wipe before it all the same.
    assert!(clipboard
        .copy("a1", &CopyField::Url, secret("three"), Duration::from_millis(0))
        .is_none());
    assert_eq!(clipboard.wipe_due(&new), WipeStep::Leave);
}

#[test]
fn only_the_own_value_is_wiped() {
    let mut clipboard = Clipboard::new();
    let wipe = clipboard
        .copy("a1", &CopyField::Password, secret("one"), Duration::from_secs(1))
        .unwrap();
    assert_eq!(wipe.wipe_checked(&Some(secret("one"))), WipeStep::ClearClipboard);
    assert_eq!(wipe.wipe_checked(&Some(secret("mine"))), WipeStep::Leave);
    assert_eq!(wipe.wipe_checked(&None), WipeStep::Leave);
    match wipe.wipe_announced(true) {
        Some(Event::ClipboardCleared { uuid, field }) => {
            assert_eq!(uuid, "a1");
            assert_eq!(field, "password");
        }
        _ => panic!("the wipe is announced"),
    }
    assert!(wipe.wipe_announced(false).is_none());
}

#[test]
fn failures_of_typing() {
    let told = |outcome: TypeOutcome| outcome.error().map(|e| (e.code(), e.to_string()));
    let status = || "exit status: 1".to_string();
    assert_eq!(told(TypeOutcome::Typed), None);
    assert_eq!(
        told(TypeOutcome::NoWtype),
        Some((
            "unsupported",
            "wtype is not installed; install it or use `copy` instead of `type`".to_string()
        ))
    );
    for (failure, message) in [
        (RunFailure::Spawn, "spawning wtype"),
        (RunFailure::Stdin, "wtype stdin"),
        (RunFailure::Io("broken pipe".to_string()), "broken pipe"),
        (RunFailure::Exit(status()), "wtype exited with exit status: 1"),
    ] {
        assert_eq!(
            told(TypeOutcome::TextFailed(failure)),
            Some(("io-error", message.to_string()))
        );
    }
    assert_eq!(
        told(TypeOutcome::KeyFailed("Tab".to_string(), Some(status()))),
        Some(("io-error", "wtype -k Tab exited with exit status: 1".to_string()))
    );
    assert_eq!(
        told(TypeOutcome::KeyFailed("Tab".to_string(), None)),
        Some(("io-error", "spawning wtype -k".to_string()))
    );
}
