//! `omarkey`, the command-line client: what it asks the daemon, and what it makes
//! of the answer.

use vstd::prelude::*;

use crate::ipc::{answer_value, IpcErrorModel};
use crate::json::{member, text_member, Json, JsonObject, JsonValue};
use crate::reader::{json_document, read};
use crate::text::{is_blank, join2, join3, optional_str, same_text, texts, trimmed};

verus! {

// ---------------------------------------------------------------- commands

/// What the command line asks for.
#[derive(Debug)]
pub enum ClientPlan {
    /// Send this request to the daemon.
    Send(Json),
    /// Show the help text.
    Help,
    /// There is no such command.
    Unknown(String),
}

/// What the command line asks for.
pub enum ClientPlanModel {
    Send(JsonValue),
    Help,
    Unknown(Seq<char>),
}

impl View for ClientPlan {
    type V = ClientPlanModel;

    open spec fn view(&self) -> ClientPlanModel {
        match self {
            ClientPlan::Send(request) => ClientPlanModel::Send(request@),
            ClientPlan::Help => ClientPlanModel::Help,
            ClientPlan::Unknown(command) => ClientPlanModel::Unknown(command@),
        }
    }
}

/// A request without arguments.
pub open spec fn plain_request(op: Seq<char>) -> Map<Seq<char>, JsonValue> {
    Map::<Seq<char>, JsonValue>::empty().insert("id"@, JsonValue::Uint(1)).insert(
        "op"@,
        JsonValue::Text(op),
    )
}

/// What the command line asks for. Without a command it is the status.
pub open spec fn planned(args: Seq<Seq<char>>) -> ClientPlanModel {
    let command = if args.len() > 0 {
        args[0]
    } else {
        "status"@
    };
    if command == "unlock"@ || command == "lock"@ || command == "status"@ || command == "hello"@ {
        ClientPlanModel::Send(JsonValue::Object(plain_request(command)))
    } else if command == "list"@ {
        ClientPlanModel::Send(
            JsonValue::Object(
                plain_request(command).insert(
                    "query"@,
                    JsonValue::Text(
                        if args.len() > 1 {
                            args[1]
                        } else {
                            Seq::empty()
                        },
                    ),
                ),
            ),
        )
    } else if command == "-h"@ || command == "--help"@ || command == "help"@ {
        ClientPlanModel::Help
    } else {
        ClientPlanModel::Unknown(command)
    }
}

/// What the command line asks for; `args` is what follows the program's name.
pub fn plan(args: &Vec<String>) -> (plan: ClientPlan)
    ensures
        plan@ == planned(texts(args@)),
{
    proof {
        reveal_strlit("");
    }
    let command: &str = if args.len() > 0 {
        args[0].as_str()
    } else {
        "status"
    };
    let list: bool = same_text(command, "list");
    if list || same_text(command, "unlock") || same_text(command, "lock") || same_text(
        command,
        "status",
    ) || same_text(command, "hello") {
        let mut request: JsonObject = JsonObject::new();
        request.insert("id", Json::uint(1));
        request.insert("op", Json::text(command));
        if list {
            let query: &str = if args.len() > 1 {
                args[1].as_str()
            } else {
                ""
            };
            assert(""@ =~= Seq::<char>::empty());
            request.insert("query", Json::text(query));
        }
        proof {
            reveal_strlit("list");
            reveal_strlit("unlock");
            reveal_strlit("lock");
            reveal_strlit("status");
            reveal_strlit("hello");
            assert("list"@[1] != "lock"@[1]);
            assert("list"@.len() == 4 && "unlock"@.len() == 6 && "status"@.len() == 6
                && "hello"@.len() == 5);
        }
        ClientPlan::Send(Json::object(request))
    } else if same_text(command, "-h") || same_text(command, "--help") || same_text(
        command,
        "help",
    ) {
        ClientPlan::Help
    } else {
        ClientPlan::Unknown(command.to_owned())
    }
}

/// What is said of a command that there is not.
pub fn unknown_command(command: &str) -> (message: String)
    ensures
        message@ == "omarkey: unknown command '"@ + command@ + "' (try --help)"@,
{
    join3("omarkey: unknown command '", command, "' (try --help)")
}

/// The help text.
pub fn help() -> (text: String)
    ensures
        text@
            == "omarkey <command>\n\n  unlock        decrypt the vault (daemon shows pinentry)\n  lock          drop the vault from memory\n  status        print JSON state\n  list [query]  print matching entry metadata\n  hello         handshake\n\nsocket: $OMARKEY_SOCKET or $XDG_RUNTIME_DIR/omarkey.sock"@,
{
    "omarkey <command>\n\n  unlock        decrypt the vault (daemon shows pinentry)\n  lock          drop the vault from memory\n  status        print JSON state\n  list [query]  print matching entry metadata\n  hello         handshake\n\nsocket: $OMARKEY_SOCKET or $XDG_RUNTIME_DIR/omarkey.sock".to_owned()
}

// ---------------------------------------------------------------- socket

/// Where the client looks for the daemon.
pub open spec fn client_socket(chosen: Option<Seq<char>>, runtime: Option<Seq<char>>) -> Seq<char> {
    let runtime = match runtime {
        Some(runtime) => runtime,
        None => "/run/user/1000"@,
    };
    match chosen {
        Some(path) => path,
        None => runtime + "/omarkey.sock"@,
    }
}

/// Where the client looks for the daemon: where it is told to, or else in the
/// runtime directory.
pub fn socket(chosen: Option<&str>, runtime: Option<&str>) -> (path: String)
    ensures
        path@ == client_socket(optional_str(chosen), optional_str(runtime)),
{
    match chosen {
        Some(path) => path.to_owned(),
        None => match runtime {
            Some(runtime) => join2(runtime, "/omarkey.sock"),
            None => join2("/run/user/1000", "/omarkey.sock"),
        },
    }
}

// ---------------------------------------------------------------- answers

/// What the client makes of an answer.
#[derive(Debug)]
pub enum ClientEnd<'a> {
    /// Print the result.
    Show(&'a Json),
    /// The request succeeded, and there is nothing to print.
    Fine,
    /// Print this as an error.
    Complain(String),
}

/// What the client makes of an answer.
pub enum ClientEndModel {
    Show(JsonValue),
    Fine,
    Complain(Seq<char>),
}

impl<'a> View for ClientEnd<'a> {
    type V = ClientEndModel;

    open spec fn view(&self) -> ClientEndModel {
        match self {
            ClientEnd::Show(result) => ClientEndModel::Show(result@),
            ClientEnd::Fine => ClientEndModel::Fine,
            ClientEnd::Complain(message) => ClientEndModel::Complain(message@),
        }
    }
}

/// The value in a line that the daemon sent, or what is said if there is none.
pub open spec fn received(line: Seq<char>) -> Result<JsonValue, Seq<char>> {
    if trimmed(line).len() == 0 {
        Err("omarkey: no response from omarkeyd"@)
    } else {
        match json_document(line) {
            Ok(value) => Ok(value),
            Err(why) => Err("omarkey: unparseable response: "@ + why),
        }
    }
}

/// The value in a line that the daemon sent.
pub fn receive(line: &str) -> (value: Result<Json, String>)
    ensures
        match value {
            Ok(value) => received(line@) == Ok::<JsonValue, Seq<char>>(value@),
            Err(why) => received(line@) == Err::<JsonValue, Seq<char>>(why@),
        },
{
    if is_blank(line) {
        return Err("omarkey: no response from omarkeyd".to_owned());
    }
    match read(line) {
        Ok(value) => Ok(value),
        Err(why) => Err(join2("omarkey: unparseable response: ", why.as_str())),
    }
}

/// The text under a name in the error of an answer, or `otherwise`.
pub open spec fn error_text(
    response: JsonValue,
    name: Seq<char>,
    otherwise: Seq<char>,
) -> Seq<char> {
    match member(response, "error"@) {
        Some(error) => match text_member(error, name) {
            Some(text) => text,
            None => otherwise,
        },
        None => otherwise,
    }
}

/// What the client makes of an answer.
pub open spec fn read_answer(response: JsonValue) -> ClientEndModel {
    if member(response, "ok"@) == Some(JsonValue::Bool(true)) {
        match member(response, "result"@) {
            Some(result) => ClientEndModel::Show(result),
            None => ClientEndModel::Fine,
        }
    } else {
        ClientEndModel::Complain(
            "omarkey: "@ + error_text(response, "message"@, "unknown error"@) + " ("@ + error_text(
                response,
                "code"@,
                "error"@,
            ) + ")"@,
        )
    }
}

/// The text under a name in the error of an answer, or `otherwise`.
fn find_error_text<'a>(response: &'a Json, name: &str, otherwise: &'a str) -> (text: &'a str)
    ensures
        text@ == error_text(response@, name@, otherwise@),
{
    match response.get("error") {
        Some(error) => match error.get_text(name) {
            Some(text) => text,
            None => otherwise,
        },
        None => otherwise,
    }
}

/// What the client makes of an answer.
pub fn interpret(response: &Json) -> (end: ClientEnd<'_>)
    ensures
        end@ == read_answer(response@),
{
    let ok: bool = match response.get("ok") {
        Some(value) => match value.as_truth() {
            Some(truth) => truth,
            None => false,
        },
        None => false,
    };
    if ok {
        return match response.get("result") {
            Some(result) => ClientEnd::Show(result),
            None => ClientEnd::Fine,
        };
    }
    let code: &str = find_error_text(response, "code", "error");
    let message: &str = find_error_text(response, "message", "unknown error");
    let head: String = join3("omarkey: ", message, " (");
    ClientEnd::Complain(join3(head.as_str(), code, ")"))
}

/// The client shows what the daemon answers: the result of a request that
/// succeeded, or the message and the code of the error.
pub proof fn law_client_shows_answer(id: Option<i64>, result: Result<JsonValue, IpcErrorModel>)
    ensures
        read_answer(answer_value(id, result)) == match result {
            Ok(value) => ClientEndModel::Show(value),
            Err(err) => ClientEndModel::Complain(
                "omarkey: "@ + err.message() + " ("@ + err.code() + ")"@,
            ),
        },
{
    reveal_strlit("id");
    reveal_strlit("ok");
    reveal_strlit("result");
    reveal_strlit("error");
    reveal_strlit("code");
    reveal_strlit("message");
    assert("id"@[0] != "ok"@[0]);
    assert("id"@.len() == 2 && "ok"@.len() == 2 && "result"@.len() == 6 && "error"@.len() == 5);
    assert("code"@.len() == 4 && "message"@.len() == 7);
}

} // verus!
