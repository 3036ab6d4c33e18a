//! What is done outside the daemon: the clipboard, typing, the prompt, the socket.

use vstd::prelude::*;
use vstd::utf8::encode_utf8;

use crate::actions::{
    clear_command, copy_command, next_generation, paste_command, scheduled_wipe, typed,
    typing_next, typing_start, which_command, InvocationModel, PendingWipeModel,
    RunFailureModel, TypeOutcomeModel, TypeStepModel, TypingModel, WipeStep,
};
use crate::config::{ConfigModel, VaultConfigModel};
use crate::daemon::type_answer;
use crate::entry::{CopyFieldModel, TypeTokenModel};
use crate::ipc::{EventModel, IpcErrorModel};
use crate::json::JsonValue;
use crate::paths::{file_name_of, joined_path, parent_of, shown};
use crate::pinentry::{
    conversation, heard, is_cancellation, pinentry_program, prompt_commands, prompt_error, Heard,
};
use crate::security::{
    directory_of, is_seated, peer_fault, runtime_dir_fault, socket_at, DirStatus, SessionRow,
};
use crate::text::{lowercase, numeral};

verus! {

// ---------------------------------------------------------------- clipboard

/// A copy goes to the clipboard, or to the primary selection if that is asked for,
/// through the standard input of `wl-copy`. `wl-paste` gives back what is there,
/// and `wl-copy --clear` empties it.
pub proof fn law_clipboard_commands(value: Seq<char>, program: Seq<char>)
    ensures
        copy_command(value, false) == (InvocationModel {
            program: "wl-copy"@,
            args: Seq::empty(),
            input: Some(value),
        }),
        copy_command(value, true) == (InvocationModel {
            program: "wl-copy"@,
            args: seq!["--primary"@],
            input: Some(value),
        }),
        paste_command() == (InvocationModel {
            program: "wl-paste"@,
            args: seq!["--no-newline"@],
            input: None,
        }),
        clear_command() == (InvocationModel {
            program: "wl-copy"@,
            args: seq!["--clear"@],
            input: None,
        }),
        which_command(program) == (InvocationModel {
            program: "sh"@,
            args: seq!["-c"@, "command -v "@ + program],
            input: None,
        }),
{
}

/// A copy has the generation after the latest, which begins again at zero once it
/// cannot grow.
pub proof fn law_generations_count_copies(generation: u64)
    ensures
        generation < u64::MAX ==> next_generation(generation) == generation + 1,
        next_generation(u64::MAX) == 0,
{
}

/// A copy is wiped after the time that it is given, unless that is none. The wipe
/// knows the copy: its generation, its entry, the name of its field and its text.
pub proof fn law_wipe_is_of_its_copy(
    generation: u64,
    uuid: Seq<char>,
    field: CopyFieldModel,
    value: Seq<char>,
    after: nat,
)
    ensures
        match scheduled_wipe(generation, uuid, field, value, after) {
            Some(wipe) => {
                &&& after > 0
                &&& wipe.generation == generation
                &&& wipe.uuid == uuid
                &&& wipe.field == field.name()
                &&& wipe.value == value
                &&& wipe.after == after
            },
            None => after == 0,
        },
{
}

/// A wipe goes on only while no copy has followed, clears only what it copied, and
/// is announced if it cleared anything.
pub proof fn law_wipe_goes_on(wipe: PendingWipeModel, latest: u64, pasted: Option<Seq<char>>)
    ensures
        wipe.due(latest) == if latest == wipe.generation {
            WipeStep::ReadClipboard
        } else {
            WipeStep::Leave
        },
        match wipe.checked(pasted) {
            WipeStep::ClearClipboard => pasted == Some(wipe.value),
            WipeStep::Leave => pasted != Some(wipe.value),
            WipeStep::ReadClipboard => false,
        },
        wipe.announced(true) == Some(
            EventModel::ClipboardCleared { uuid: wipe.uuid, field: wipe.field },
        ),
        wipe.announced(false) is None,
{
}

// ---------------------------------------------------------------- typing

/// Text goes through the standard input of `wtype`, twelve milliseconds between its
/// keys; a key is named in its arguments; a delay is slept.
pub proof fn law_typing_commands(text: Seq<char>, millis: nat)
    ensures
        typed(TypeTokenModel::Text(text)) == TypeStepModel::Run(
            InvocationModel {
                program: "wtype"@,
                args: seq!["-s"@, "12"@, "-"@],
                input: Some(text),
            },
        ),
        typed(TypeTokenModel::Key(text)) == TypeStepModel::Run(
            InvocationModel { program: "wtype"@, args: seq!["-k"@, text], input: None },
        ),
        typed(TypeTokenModel::Delay(millis)) == TypeStepModel::Sleep(millis),
{
}

/// The tokens are typed one after the other, from the first on, and the typing is
/// done after the last.
pub proof fn law_typing_goes_on(tokens: Seq<TypeTokenModel>, at: nat)
    ensures
        tokens.len() > 0 ==> typing_start(tokens, true) == TypingModel::Step(typed(tokens[0])),
        tokens.len() == 0 ==> typing_start(tokens, true) == TypingModel::Done(
            TypeOutcomeModel::Typed,
        ),
        typing_start(tokens, false) == TypingModel::Done(TypeOutcomeModel::NoWtype),
        at + 1 < tokens.len() ==> typing_next(tokens, at, None) == TypingModel::Step(
            typed(tokens[at as int + 1]),
        ),
        at + 1 == tokens.len() ==> typing_next(tokens, at, None) == TypingModel::Done(
            TypeOutcomeModel::Typed,
        ),
{
}

/// A token that fails ends the typing, and what is answered tells what failed: for
/// a key its name and the status, for text what went wrong with the process.
pub proof fn law_typing_fails(
    tokens: Seq<TypeTokenModel>,
    at: nat,
    failure: RunFailureModel,
    key: Seq<char>,
)
    requires
        at < tokens.len(),
    ensures
        typing_next(tokens, at, Some(failure)) matches TypingModel::Done(outcome) && {
            &&& tokens[at as int] == TypeTokenModel::Key(key) ==> type_answer(outcome) == Err::<
                JsonValue,
                IpcErrorModel,
            >(
                IpcErrorModel::IoError(
                    match failure {
                        RunFailureModel::Exit(status) => "wtype -k "@ + key + " exited with "@
                            + status,
                        _ => "spawning wtype -k"@,
                    },
                ),
            )
            &&& !(tokens[at as int] is Key) ==> type_answer(outcome) == Err::<
                JsonValue,
                IpcErrorModel,
            >(
                IpcErrorModel::IoError(
                    match failure {
                        RunFailureModel::Spawn => "spawning wtype"@,
                        RunFailureModel::Stdin => "wtype stdin"@,
                        RunFailureModel::Io(why) => why,
                        RunFailureModel::Exit(status) => "wtype exited with "@ + status,
                    },
                ),
            )
        },
{
}

// ---------------------------------------------------------------- the prompt

/// The prompt is that of the settings, or `pinentry` if they name none.
pub proof fn law_prompt_program(config: ConfigModel)
    ensures
        config.pinentry_program is None || config.pinentry_program.unwrap().len() == 0
            ==> pinentry_program(config) == "pinentry"@,
        config.pinentry_program matches Some(program) ==> program.len() > 0 ==> pinentry_program(
            config,
        ) == program,
{
}

/// What the prompt is told: a title and a line with the name of the vault, a text
/// with the name of the file, and then to ask.
pub proof fn law_prompt_commands(vault: VaultConfigModel)
    ensures
        prompt_commands(vault).len() == 4,
        prompt_commands(vault)[0] == "SETTITLE Omarkey — "@ + vault.name,
        prompt_commands(vault)[1] == "SETDESC Unlock the KeePass vault ("@ + (match file_name_of(
            vault.path,
        ) {
            Some(name) => shown(name),
            None => vault.name,
        }) + ")"@,
        prompt_commands(vault)[2] == "SETPROMPT "@ + vault.name + ":"@,
        prompt_commands(vault)[3] == "GETPIN"@,
{
}

/// What each line of the prompt means. Data is kept, whatever was kept before; an
/// OK leads to the next command, and after the last it ends the dialog with the
/// data; an error ends it; anything else changes nothing.
pub proof fn law_prompt_lines(
    count: nat,
    at: nat,
    pin: Option<Seq<char>>,
    rest: Seq<char>,
    line: Seq<char>,
)
    ensures
        heard(count, at, pin, seq!['D', ' '] + rest) == Heard::More(at, Some(rest)),
        line == seq!['O', 'K'] || line == seq!['O', 'K', ' '] + rest ==> heard(count, at, pin, line)
            == if at + 1 < count {
            Heard::More(at + 1, None)
        } else {
            match pin {
                Some(pin) => Heard::Got(pin),
                None => Heard::Failed("pinentry returned no PIN"@),
            }
        },
        heard(count, at, pin, seq!['E', 'R', 'R', ' '] + rest) == Heard::Failed(
            if is_cancellation(rest, lowercase(rest)) {
                "cancelled"@
            } else {
                "pinentry error: "@ + rest
            },
        ),
        !(line.len() >= 2 && line[0] == 'D' && line[1] == ' ') && line != seq!['O', 'K'] && !(
        line.len() >= 3 && line[0] == 'O' && line[1] == 'K' && line[2] == ' ') && !(line.len() >= 4
            && line[0] == 'E' && line[1] == 'R' && line[2] == 'R' && line[3] == ' ') ==> heard(
            count,
            at,
            pin,
            line,
        ) == Heard::More(at, pin),
{
    reveal_strlit("D ");
    reveal_strlit("OK");
    reveal_strlit("OK ");
    reveal_strlit("ERR ");
    assert("D "@ =~= seq!['D', ' ']);
    assert("OK"@ =~= seq!['O', 'K']);
    assert("OK "@ =~= seq!['O', 'K', ' ']);
    assert("ERR "@ =~= seq!['E', 'R', 'R', ' ']);
    let data = seq!['D', ' '] + rest;
    let fine = seq!['O', 'K', ' '] + rest;
    let wrong = seq!['E', 'R', 'R', ' '] + rest;
    crate::laws::text::law_prefix_and_rest("D "@, rest, data);
    crate::laws::text::law_prefix_and_rest("OK "@, rest, fine);
    crate::laws::text::law_prefix_and_rest("ERR "@, rest, wrong);
    assert(fine.take(2)[0] == 'O');
    assert(fine.take(3) =~= "OK "@);
    assert(seq!['O', 'K'].take(2)[0] == 'O');
    assert(wrong.take(2)[0] == 'E');
    assert(wrong.take(3)[0] == 'E');
    assert(wrong[0] == 'E' && "OK"@[0] == 'O');
    if line.len() >= 2 {
        assert(line.take(2)[0] == line[0] && line.take(2)[1] == line[1]);
    }
    if line.len() >= 3 {
        assert(line.take(3)[0] == line[0] && line.take(3)[1] == line[1] && line.take(3)[2]
            == line[2]);
    }
    if line.len() >= 4 {
        assert(line.take(4)[0] == line[0] && line.take(4)[1] == line[1] && line.take(4)[2]
            == line[2] && line.take(4)[3] == line[3]);
    }
}

/// An error is a cancellation if it has the number of one somewhere, or, in lower
/// case, the word.
pub proof fn law_cancellations(front: Seq<char>, back: Seq<char>, error: Seq<char>, low: Seq<char>)
    ensures
        is_cancellation(front + "83886179"@ + back, low),
        is_cancellation(error, front + "cancel"@ + back),
        is_cancellation(error, low) ==> (exists|at: int|
            0 <= at <= error.len() - 8 && #[trigger] error.subrange(at, at + 8) == "83886179"@) || (
        exists|at: int|
            0 <= at <= low.len() - 6 && #[trigger] low.subrange(at, at + 6) == "cancel"@),
        prompt_error(error, low) == if is_cancellation(error, low) {
            "cancelled"@
        } else {
            "pinentry error: "@ + error
        },
{
    reveal_strlit("83886179");
    reveal_strlit("cancel");
    assert("83886179"@.len() == 8 && "cancel"@.len() == 6);
    let (number, word) = (front + "83886179"@ + back, front + "cancel"@ + back);
    let at = front.len() as int;
    crate::laws::text::law_search_finds_the_first_place(number, "83886179"@, 0);
    assert(number.subrange(at, at + 8) =~= "83886179"@);
    crate::laws::text::law_search_finds_the_first_place(word, "cancel"@, 0);
    assert(word.subrange(at, at + 6) =~= "cancel"@);
    crate::laws::text::law_search_finds_the_first_place(error, "83886179"@, 0);
    crate::laws::text::law_search_finds_the_first_place(low, "cancel"@, 0);
    if let Some(at) = crate::text::find_from(error, "83886179"@, 0) {
        assert(error.subrange(at as int, at as int + 8) == "83886179"@);
    }
    if let Some(at) = crate::text::find_from(low, "cancel"@, 0) {
        assert(low.subrange(at as int, at as int + 6) == "cancel"@);
    }
}

/// A conversation is heard line by line: what follows a line goes on from where the
/// line led, and an end is an end.
pub proof fn law_conversation_goes_on(
    count: nat,
    at: nat,
    pin: Option<Seq<char>>,
    line: Seq<char>,
    lines: Seq<Seq<char>>,
)
    ensures
        conversation(count, at, pin, Seq::empty()) == Heard::More(at, pin),
        match heard(count, at, pin, line) {
            Heard::More(next, kept) => conversation(count, at, pin, seq![line] + lines)
                == conversation(count, next, kept, lines),
            end => conversation(count, at, pin, seq![line] + lines) == end,
        },
{
    assert((seq![line] + lines).skip(1) =~= lines);
    assert((seq![line] + lines)[0] == line);
}

// ---------------------------------------------------------------- the socket

/// The socket is where the settings put it, else in the directory for the run of
/// the session; without that there is no safe place.
pub proof fn law_socket_place(config: ConfigModel, runtime: Option<Seq<u8>>)
    ensures
        config.socket_path matches Some(path) ==> socket_at(config, runtime) == Ok::<
            Seq<u8>,
            Seq<char>,
        >(path),
        config.socket_path is None ==> match runtime {
            Some(dir) => socket_at(config, runtime) == Ok::<Seq<u8>, Seq<char>>(
                joined_path(dir, encode_utf8("omarkey.sock"@)),
            ),
            None => socket_at(config, runtime) == Err::<Seq<u8>, Seq<char>>(
                "XDG_RUNTIME_DIR is not set; cannot place the socket safely"@,
            ),
        },
{
}

/// The directory of the socket is the parent of its path.
pub proof fn law_socket_directory(socket: Seq<u8>)
    ensures
        match parent_of(socket) {
            Some(dir) => directory_of(socket) == Ok::<Seq<u8>, Seq<char>>(dir),
            None => directory_of(socket) == Err::<Seq<u8>, Seq<char>>(
                "socket path has no parent directory"@,
            ),
        },
{
}

/// What is wrong with the directory of the socket, in this order: it is not there,
/// it is no directory, it is not ours, or others may write to it.
pub proof fn law_what_is_wrong_with_the_directory(
    dir: Seq<char>,
    is_dir: bool,
    owner: u32,
    mode: u32,
    uid: u32,
)
    ensures
        runtime_dir_fault(dir, None, uid) == Some("stat "@ + dir),
        ({
            let status = DirStatus { is_dir, uid: owner, mode };
            let fault = runtime_dir_fault(dir, Some(status), uid);
            let bits = mode & 0o777;
            &&& !is_dir ==> fault == Some(dir + " is not a directory"@)
            &&& is_dir && owner != uid ==> fault == Some(
                dir + " is not owned by uid "@ + numeral(uid as nat, 10),
            )
            &&& is_dir && owner == uid && (mode & 0o020 != 0 || mode & 0o002 != 0) ==> fault
                == Some(
                dir + " is writable by group or other (mode "@ + numeral(bits as nat, 8) + ")"@,
            )
            &&& is_dir && owner == uid && mode & 0o020 == 0 && mode & 0o002 == 0 ==> fault is None
        }),
{
    assert(((mode & 0o777) & 0o022 == 0) <==> (mode & 0o020 == 0 && mode & 0o002 == 0))
        by (bit_vector);
}

/// Only a peer that runs as the same user is let in.
pub proof fn law_peers(peer: u32, uid: u32)
    ensures
        peer == uid ==> peer_fault(peer, uid) is None,
        peer != uid ==> peer_fault(peer, uid) == Some(
            "peer uid "@ + numeral(peer as nat, 10) + " != "@ + numeral(uid as nat, 10),
        ),
{
}

/// A session is that of the user at the machine if it is theirs and has a seat.
pub proof fn law_seated_sessions(row: SessionRow, uid: u32)
    ensures
        is_seated(row, uid) <==> row.uid == uid && row.seat@ != Seq::<char>::empty(),
{
    assert(row.seat@.len() == 0 <==> row.seat@ =~= Seq::<char>::empty());
}

} // verus!
