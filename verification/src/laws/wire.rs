//! What goes over the socket, from the daemon and from the client.

use vstd::prelude::*;

use crate::client::{client_socket, planned, read_answer, received, ClientEndModel, ClientPlanModel};
use crate::ipc::{answer_value, event_value, EventModel, IpcErrorModel, LockReason, Response};
use crate::json::JsonValue;
use crate::reader::json_document;
use crate::text::trimmed;

verus! {

// ---------------------------------------------------------------- answers

/// The number under which a request came, on the wire.
pub open spec fn is_id(value: JsonValue, id: Option<i64>) -> bool {
    match value {
        JsonValue::Uint(n) => id matches Some(id) && id as int == n as int,
        JsonValue::Negative(n) => id matches Some(id) && id < 0 && id == n,
        JsonValue::Null => id is None,
        _ => false,
    }
}

/// An answer that went well carries the number of the request, that it did, and the
/// result.
pub proof fn law_good_answer(id: Option<i64>, result: JsonValue)
    ensures
        answer_value(id, Ok(result)) matches JsonValue::Object(members) && {
            &&& members.dom() == set!["id"@, "ok"@, "result"@]
            &&& is_id(members["id"@], id)
            &&& members["ok"@] == JsonValue::Bool(true)
            &&& members["result"@] == result
        },
{
    lemma_members_differ();
    let members = answer_value(id, Ok(result))->Object_0;
    assert(members.dom() =~= set!["id"@, "ok"@, "result"@]);
}

/// The names of the members of an answer differ.
proof fn lemma_members_differ()
    ensures
        "id"@ != "ok"@,
        "id"@ != "result"@,
        "ok"@ != "result"@,
        "id"@ != "error"@,
        "ok"@ != "error"@,
        "code"@ != "message"@,
{
    reveal_strlit("id");
    reveal_strlit("ok");
    reveal_strlit("result");
    reveal_strlit("error");
    reveal_strlit("code");
    reveal_strlit("message");
    assert("id"@[0] != "ok"@[0]);
    assert("id"@.len() == 2 && "ok"@.len() == 2 && "result"@.len() == 6 && "error"@.len() == 5);
    assert("code"@.len() == 4 && "message"@.len() == 7);
}

/// An answer that went wrong carries the number of the request, that it did, and
/// the code and the message of the error.
pub proof fn law_bad_answer(id: Option<i64>, err: IpcErrorModel)
    ensures
        answer_value(id, Err(err)) matches JsonValue::Object(members) && {
            &&& members.dom() == set!["id"@, "ok"@, "error"@]
            &&& is_id(members["id"@], id)
            &&& members["ok"@] == JsonValue::Bool(false)
            &&& members["error"@] == JsonValue::Object(
                map![
                    "code"@ => JsonValue::Text(err.code()),
                    "message"@ => JsonValue::Text(err.message())
                ],
            )
        },
{
    lemma_members_differ();
    let members = answer_value(id, Err(err))->Object_0;
    assert(members.dom() =~= set!["id"@, "ok"@, "error"@]);
}

/// A response is written as the answer that it is: with a result or with an error,
/// never with both.
pub proof fn law_response_is_one_or_the_other(
    response: Response,
    id: Option<i64>,
    result: Result<JsonValue, IpcErrorModel>,
)
    requires
        response.answers(id, result),
    ensures
        response.wire_value() == answer_value(id, result),
        response.id == id,
        response.ok <==> result is Ok,
        response.result is Some <==> result is Ok,
        response.error is Some <==> result is Err,
        result matches Ok(value) ==> response.result.unwrap()@ == value,
        result matches Err(err) ==> response.error.unwrap().code@ == err.code()
            && response.error.unwrap().message@ == err.message(),
{
}

/// The code and the message of each error.
pub proof fn law_errors_on_the_wire(what: Seq<char>)
    ensures
        IpcErrorModel::Locked.code() == "locked"@,
        IpcErrorModel::Locked.message() == "vault is locked"@,
        IpcErrorModel::AuthFailed.code() == "auth-failed"@,
        IpcErrorModel::AuthFailed.message() == "wrong master password or key file"@,
        IpcErrorModel::NotFound(what).code() == "not-found"@,
        IpcErrorModel::NotFound(what).message() == "no entry with uuid "@ + what,
        IpcErrorModel::BadRequest(what).code() == "bad-request"@,
        IpcErrorModel::BadRequest(what).message() == what,
        IpcErrorModel::VaultError(what).code() == "vault-error"@,
        IpcErrorModel::VaultError(what).message() == "vault error: "@ + what,
        IpcErrorModel::IoError(what).code() == "io-error"@,
        IpcErrorModel::IoError(what).message() == what,
        IpcErrorModel::Unsupported(what).code() == "unsupported"@,
        IpcErrorModel::Unsupported(what).message() == what,
        IpcErrorModel::Busy.code() == "busy"@,
        IpcErrorModel::Busy.message() == "another unlock is already in progress"@,
{
}

// ---------------------------------------------------------------- events

/// What each event looks like on the wire.
pub proof fn law_events_on_the_wire(
    count: nat,
    reason: LockReason,
    uuid: Seq<char>,
    field: Seq<char>,
)
    ensures
        event_value(EventModel::Unlocked { entry_count: count }) == JsonValue::Object(
            map![
                "event"@ => JsonValue::Text("unlocked"@),
                "entryCount"@ => JsonValue::Uint(count as u64)
            ],
        ),
        event_value(EventModel::Locked { reason }) == JsonValue::Object(
            map![
                "event"@ => JsonValue::Text("locked"@),
                "reason"@ => JsonValue::Text(match reason {
                    LockReason::Idle => "idle"@,
                    LockReason::Manual => "manual"@,
                    LockReason::SessionLock => "session-lock"@,
                    LockReason::Sleep => "sleep"@,
                })
            ],
        ),
        event_value(EventModel::VaultChanged) == JsonValue::Object(
            map!["event"@ => JsonValue::Text("vault-changed"@)],
        ),
        event_value(EventModel::ClipboardCleared { uuid, field }) == JsonValue::Object(
            map![
                "event"@ => JsonValue::Text("clipboard-cleared"@),
                "uuid"@ => JsonValue::Text(uuid),
                "field"@ => JsonValue::Text(field)
            ],
        ),
{
}

// ---------------------------------------------------------------- client

/// The client sends the command that it is given as the operation, `status` if it
/// is given none. For `list` the next argument is the query.
pub proof fn law_client_sends_its_command(args: Seq<Seq<char>>)
    ensures
        args.len() == 0 ==> planned(args) == planned(seq!["status"@]),
        args.len() > 0 && (args[0] == "unlock"@ || args[0] == "lock"@ || args[0] == "status"@
            || args[0] == "hello"@) ==> planned(args) == ClientPlanModel::Send(
            JsonValue::Object(
                map!["id"@ => JsonValue::Uint(1), "op"@ => JsonValue::Text(args[0])],
            ),
        ),
        args.len() > 0 && args[0] == "list"@ ==> planned(args) == ClientPlanModel::Send(
            JsonValue::Object(
                map![
                    "id"@ => JsonValue::Uint(1),
                    "op"@ => JsonValue::Text("list"@),
                    "query"@ => JsonValue::Text(if args.len() > 1 { args[1] } else {
                        Seq::<char>::empty()
                    })
                ],
            ),
        ),
        args.len() > 0 && (args[0] == "-h"@ || args[0] == "--help"@ || args[0] == "help"@)
            ==> planned(args) == ClientPlanModel::Help,
        args.len() > 0 && args[0] != "unlock"@ && args[0] != "lock"@ && args[0] != "status"@
            && args[0] != "hello"@ && args[0] != "list"@ && args[0] != "-h"@ && args[0] != "--help"@
            && args[0] != "help"@ ==> planned(args) == ClientPlanModel::Unknown(args[0]),
{
    reveal_strlit("unlock");
    reveal_strlit("lock");
    reveal_strlit("status");
    reveal_strlit("hello");
    reveal_strlit("list");
    reveal_strlit("-h");
    reveal_strlit("--help");
    reveal_strlit("help");
    assert("unlock"@.len() == 6 && "lock"@.len() == 4 && "status"@.len() == 6 && "hello"@.len()
        == 5);
    assert("list"@.len() == 4 && "-h"@.len() == 2 && "--help"@.len() == 6 && "help"@.len() == 4);
    assert("lock"@[1] == 'o' && "list"@[1] == 'i' && "list"@[0] == 'l' && "lock"@[0] == 'l');
    assert("help"@[0] == 'h' && "--help"@[0] == '-' && "unlock"@[0] == 'u' && "status"@[0] == 's');
    assert(seq!["status"@][0] == "status"@);
}

/// The client asks at the socket that it is told of, else at the one in the
/// directory for the run of the session.
pub proof fn law_client_asks_at(chosen: Seq<char>, runtime: Option<Seq<char>>, dir: Seq<char>)
    ensures
        client_socket(Some(chosen), runtime) == chosen,
        client_socket(None, Some(dir)) == dir + "/omarkey.sock"@,
        client_socket(None, None) == "/run/user/1000"@ + "/omarkey.sock"@,
{
}

/// A line that is empty but for white space is no answer; any other is what it says,
/// if it says anything.
pub proof fn law_client_reads_a_line(line: Seq<char>, value: JsonValue, why: Seq<char>)
    ensures
        trimmed(line).len() == 0 ==> received(line) == Err::<JsonValue, Seq<char>>(
            "omarkey: no response from omarkeyd"@,
        ),
        trimmed(line).len() > 0 && json_document(line) == Ok::<JsonValue, Seq<char>>(value)
            ==> received(line) == Ok::<JsonValue, Seq<char>>(value),
        trimmed(line).len() > 0 && json_document(line) == Err::<JsonValue, Seq<char>>(why)
            ==> received(line) == Err::<JsonValue, Seq<char>>(
            "omarkey: unparseable response: "@ + why,
        ),
{
}

/// The text under a name in a member that is an object, or something else.
pub open spec fn told_in(
    members: Map<Seq<char>, JsonValue>,
    name: Seq<char>,
    otherwise: Seq<char>,
) -> Seq<char> {
    if members.contains_key("error"@) && members["error"@] is Object
        && members["error"@]->Object_0.contains_key(name)
        && members["error"@]->Object_0[name] is Text {
        members["error"@]->Object_0[name]->Text_0
    } else {
        otherwise
    }
}

/// The client shows the result of an answer that went well. Of any other it tells
/// the message and the code, as far as there are any.
pub proof fn law_client_tells_the_answer(members: Map<Seq<char>, JsonValue>)
    ensures
        members.contains_key("ok"@) && members["ok"@] == JsonValue::Bool(true) ==> read_answer(
            JsonValue::Object(members),
        ) == if members.contains_key("result"@) {
            ClientEndModel::Show(members["result"@])
        } else {
            ClientEndModel::Fine
        },
        !(members.contains_key("ok"@) && members["ok"@] == JsonValue::Bool(true)) ==> read_answer(
            JsonValue::Object(members),
        ) == ClientEndModel::Complain(
            "omarkey: "@ + told_in(members, "message"@, "unknown error"@) + " ("@ + told_in(
                members,
                "code"@,
                "error"@,
            ) + ")"@,
        ),
{
}

/// An answer that is no object at all is told as an error that is not known.
pub proof fn law_client_distrusts_what_is_no_object(answer: JsonValue)
    requires
        !(answer is Object),
    ensures
        read_answer(answer) == ClientEndModel::Complain(
            "omarkey: "@ + "unknown error"@ + " ("@ + "error"@ + ")"@,
        ),
{
}

} // verus!
