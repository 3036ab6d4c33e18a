//! The wire protocol: requests, responses and events, one JSON value per line.

use vstd::prelude::*;

use crate::json::{Json, JsonObject, JsonValue};
use crate::text::{is_blank, join2, trimmed};

verus! {

/// The version of the protocol that the daemon speaks.
pub const PROTOCOL_VERSION: u32 = 1;

// ---------------------------------------------------------------- errors

/// Why a request failed.
#[derive(Debug)]
pub enum IpcError {
    Locked,
    AuthFailed,
    NotFound(String),
    BadRequest(String),
    VaultError(String),
    IoError(String),
    Unsupported(String),
    Busy,
}

/// What an error says.
pub enum IpcErrorModel {
    Locked,
    AuthFailed,
    NotFound(Seq<char>),
    BadRequest(Seq<char>),
    VaultError(Seq<char>),
    IoError(Seq<char>),
    Unsupported(Seq<char>),
    Busy,
}

impl View for IpcError {
    type V = IpcErrorModel;

    open spec fn view(&self) -> IpcErrorModel {
        match self {
            IpcError::Locked => IpcErrorModel::Locked,
            IpcError::AuthFailed => IpcErrorModel::AuthFailed,
            IpcError::NotFound(what) => IpcErrorModel::NotFound(what@),
            IpcError::BadRequest(what) => IpcErrorModel::BadRequest(what@),
            IpcError::VaultError(what) => IpcErrorModel::VaultError(what@),
            IpcError::IoError(what) => IpcErrorModel::IoError(what@),
            IpcError::Unsupported(what) => IpcErrorModel::Unsupported(what@),
            IpcError::Busy => IpcErrorModel::Busy,
        }
    }
}

impl IpcErrorModel {
    /// The error code on the wire.
    pub open spec fn code(self) -> Seq<char> {
        match self {
            IpcErrorModel::Locked => "locked"@,
            IpcErrorModel::AuthFailed => "auth-failed"@,
            IpcErrorModel::NotFound(_) => "not-found"@,
            IpcErrorModel::BadRequest(_) => "bad-request"@,
            IpcErrorModel::VaultError(_) => "vault-error"@,
            IpcErrorModel::IoError(_) => "io-error"@,
            IpcErrorModel::Unsupported(_) => "unsupported"@,
            IpcErrorModel::Busy => "busy"@,
        }
    }

    /// The error in words.
    pub open spec fn message(self) -> Seq<char> {
        match self {
            IpcErrorModel::Locked => "vault is locked"@,
            IpcErrorModel::AuthFailed => "wrong master password or key file"@,
            IpcErrorModel::NotFound(what) => "no entry with uuid "@ + what,
            IpcErrorModel::BadRequest(what) => what,
            IpcErrorModel::VaultError(what) => "vault error: "@ + what,
            IpcErrorModel::IoError(what) => what,
            IpcErrorModel::Unsupported(what) => what,
            IpcErrorModel::Busy => "another unlock is already in progress"@,
        }
    }
}

impl IpcError {
    /// The error code on the wire.
    pub fn code(&self) -> (code: &'static str)
        ensures
            code@ == self@.code(),
    {
        match self {
            IpcError::Locked => "locked",
            IpcError::AuthFailed => "auth-failed",
            IpcError::NotFound(_) => "not-found",
            IpcError::BadRequest(_) => "bad-request",
            IpcError::VaultError(_) => "vault-error",
            IpcError::IoError(_) => "io-error",
            IpcError::Unsupported(_) => "unsupported",
            IpcError::Busy => "busy",
        }
    }

    /// The error in words.
    pub fn to_string(&self) -> (message: String)
        ensures
            message@ == self@.message(),
    {
        match self {
            IpcError::Locked => "vault is locked".to_owned(),
            IpcError::AuthFailed => "wrong master password or key file".to_owned(),
            IpcError::NotFound(what) => join2("no entry with uuid ", what.as_str()),
            IpcError::BadRequest(what) => what.clone(),
            IpcError::VaultError(what) => join2("vault error: ", what.as_str()),
            IpcError::IoError(what) => what.clone(),
            IpcError::Unsupported(what) => what.clone(),
            IpcError::Busy => "another unlock is already in progress".to_owned(),
        }
    }
}

/// What a result that carries a view says.
pub open spec fn outcome<T: View>(result: Result<T, IpcError>) -> Result<T::V, IpcErrorModel> {
    match result {
        Ok(value) => Ok(value@),
        Err(err) => Err(err@),
    }
}

// ---------------------------------------------------------------- requests

/// One request: the operation and its arguments.
#[derive(Debug)]
pub struct Request {
    pub id: Option<i64>,
    pub op: String,
    pub args: Json,
}

/// What a request says.
pub struct RequestModel {
    pub id: Option<i64>,
    pub op: Seq<char>,
    pub args: JsonValue,
}

impl View for Request {
    type V = RequestModel;

    open spec fn view(&self) -> RequestModel {
        RequestModel { id: self.id, op: self.op@, args: self.args@ }
    }
}

/// Whether a line of a connection carries a request. Blank lines are passed over.
pub fn carries_request(line: &str) -> (carries: bool)
    ensures
        carries == (trimmed(line@).len() > 0),
{
    !is_blank(line)
}

// ---------------------------------------------------------------- responses

/// The answer to one request.
#[derive(Debug)]
pub struct Response {
    pub id: Option<i64>,
    pub ok: bool,
    pub result: Option<Json>,
    pub error: Option<ErrorBody>,
}

/// An error as the answer carries it.
#[derive(Debug)]
pub struct ErrorBody {
    pub code: &'static str,
    pub message: String,
}

/// The number that identifies a request, as JSON.
pub open spec fn id_value(id: Option<i64>) -> JsonValue {
    match id {
        Some(id) => if id >= 0 {
            JsonValue::Uint(id as u64)
        } else {
            JsonValue::Negative(id)
        },
        None => JsonValue::Null,
    }
}

/// An error as it stands on the wire.
pub open spec fn error_value(code: Seq<char>, message: Seq<char>) -> JsonValue {
    JsonValue::Object(
        Map::<Seq<char>, JsonValue>::empty().insert("code"@, JsonValue::Text(code)).insert(
            "message"@,
            JsonValue::Text(message),
        ),
    )
}

/// The answer to request `id`, as it stands on the wire: a success carries the
/// result and a failure the error, never both.
pub open spec fn answer_value(
    id: Option<i64>,
    result: Result<JsonValue, IpcErrorModel>,
) -> JsonValue {
    let head = Map::<Seq<char>, JsonValue>::empty().insert("id"@, id_value(id));
    JsonValue::Object(
        match result {
            Ok(value) => head.insert("ok"@, JsonValue::Bool(true)).insert("result"@, value),
            Err(err) => head.insert("ok"@, JsonValue::Bool(false)).insert(
                "error"@,
                error_value(err.code(), err.message()),
            ),
        },
    )
}

/// What goes out for a response is the answer that the response stands for.
pub proof fn law_response_on_the_wire(
    response: Response,
    id: Option<i64>,
    result: Result<JsonValue, IpcErrorModel>,
)
    requires
        response.answers(id, result),
    ensures
        response.wire_value() == answer_value(id, result),
{
}

impl Response {
    /// The response that answers request `id` with `result`.
    pub open spec fn answers(
        self,
        id: Option<i64>,
        result: Result<JsonValue, IpcErrorModel>,
    ) -> bool {
        &&& self.id == id
        &&& self.ok == (result is Ok)
        &&& match result {
            Ok(value) => {
                &&& self.result matches Some(json)
                &&& json@ == value
                &&& self.error is None
            },
            Err(err) => {
                &&& self.result is None
                &&& self.error matches Some(body)
                &&& body.code@ == err.code()
                &&& body.message@ == err.message()
            },
        }
    }

    /// The answer to a request that succeeded.
    pub fn ok(id: Option<i64>, result: Json) -> (response: Response)
        ensures
            response.answers(id, Ok(result@)),
    {
        Response { id, ok: true, result: Some(result), error: None }
    }

    /// The answer to a request that failed.
    pub fn err(id: Option<i64>, err: IpcError) -> (response: Response)
        ensures
            response.answers(id, Err(err@)),
    {
        Response {
            id,
            ok: false,
            result: None,
            error: Some(ErrorBody { code: err.code(), message: err.to_string() }),
        }
    }

    /// The answer to request `id` with the given result.
    pub fn of(id: Option<i64>, result: Result<Json, IpcError>) -> (response: Response)
        ensures
            response.answers(id, outcome(result)),
    {
        match result {
            Ok(value) => Response::ok(id, value),
            Err(err) => Response::err(id, err),
        }
    }

    /// The response as it stands on the wire. Fields that are missing are left
    /// out.
    pub open spec fn wire_value(self) -> JsonValue {
        let head = Map::<Seq<char>, JsonValue>::empty().insert("id"@, id_value(self.id)).insert(
            "ok"@,
            JsonValue::Bool(self.ok),
        );
        let body = match self.result {
            Some(result) => head.insert("result"@, result@),
            None => head,
        };
        JsonValue::Object(
            match self.error {
                Some(error) => body.insert(
                    "error"@,
                    error_value(error.code@, error.message@),
                ),
                None => body,
            },
        )
    }

    /// Puts the response in the form that stands on the wire.
    pub fn into_json(self) -> (json: Json)
        ensures
            json@ == self.wire_value(),
    {
        let mut object: JsonObject = JsonObject::new();
        match self.id {
            Some(id) => object.insert("id", Json::signed(id)),
            None => object.insert("id", Json::null()),
        }
        object.insert("ok", Json::truth(self.ok));
        if let Some(result) = self.result {
            object.insert("result", result);
        }
        if let Some(body) = self.error {
            let mut error: JsonObject = JsonObject::new();
            error.insert("code", Json::text(body.code));
            error.insert("message", Json::text(body.message.as_str()));
            object.insert("error", Json::object(error));
        }
        Json::object(object)
    }
}

// ---------------------------------------------------------------- events

/// What the daemon tells subscribers without being asked.
#[derive(Debug, Clone)]
pub enum Event {
    Unlocked { entry_count: usize },
    Locked { reason: LockReason },
    VaultChanged,
    ClipboardCleared { uuid: String, field: String },
}

/// Why the vault was locked.
#[derive(Debug, Clone, Copy, PartialEq, Eq, Structural)]
pub enum LockReason {
    Idle,
    Manual,
    SessionLock,
    Sleep,
}

/// What an event says.
pub enum EventModel {
    Unlocked { entry_count: nat },
    Locked { reason: LockReason },
    VaultChanged,
    ClipboardCleared { uuid: Seq<char>, field: Seq<char> },
}

impl View for Event {
    type V = EventModel;

    open spec fn view(&self) -> EventModel {
        match self {
            Event::Unlocked { entry_count } => EventModel::Unlocked {
                entry_count: *entry_count as nat,
            },
            Event::Locked { reason } => EventModel::Locked { reason: *reason },
            Event::VaultChanged => EventModel::VaultChanged,
            Event::ClipboardCleared { uuid, field } => EventModel::ClipboardCleared {
                uuid: uuid@,
                field: field@,
            },
        }
    }
}

/// The events of a list.
pub open spec fn event_models(events: Seq<Event>) -> Seq<EventModel> {
    events.map_values(|event: Event| event@)
}

/// The event that may have come of an action.
pub open spec fn event_model(event: Option<Event>) -> Option<EventModel> {
    match event {
        Some(event) => Some(event@),
        None => None,
    }
}

impl LockReason {
    /// The reason on the wire.
    pub open spec fn wire_name(self) -> Seq<char> {
        match self {
            LockReason::Idle => "idle"@,
            LockReason::Manual => "manual"@,
            LockReason::SessionLock => "session-lock"@,
            LockReason::Sleep => "sleep"@,
        }
    }

    /// The reason on the wire.
    pub fn as_str(&self) -> (name: &'static str)
        ensures
            name@ == self.wire_name(),
    {
        match self {
            LockReason::Idle => "idle",
            LockReason::Manual => "manual",
            LockReason::SessionLock => "session-lock",
            LockReason::Sleep => "sleep",
        }
    }
}

/// An event as it stands on the wire.
pub open spec fn event_value(event: EventModel) -> JsonValue {
    let none = Map::<Seq<char>, JsonValue>::empty();
    JsonValue::Object(
        match event {
            EventModel::Unlocked { entry_count } => none.insert(
                "event"@,
                JsonValue::Text("unlocked"@),
            ).insert("entryCount"@, JsonValue::Uint(entry_count as u64)),
            EventModel::Locked { reason } => none.insert(
                "event"@,
                JsonValue::Text("locked"@),
            ).insert("reason"@, JsonValue::Text(reason.wire_name())),
            EventModel::VaultChanged => none.insert("event"@, JsonValue::Text("vault-changed"@)),
            EventModel::ClipboardCleared { uuid, field } => none.insert(
                "event"@,
                JsonValue::Text("clipboard-cleared"@),
            ).insert("uuid"@, JsonValue::Text(uuid)).insert("field"@, JsonValue::Text(field)),
        },
    )
}

impl Event {
    /// The event as it stands on the wire.
    pub fn to_json(&self) -> (json: Json)
        ensures
            json@ == event_value(self@),
    {
        let mut object: JsonObject = JsonObject::new();
        match self {
            Event::Unlocked { entry_count } => {
                object.insert("event", Json::text("unlocked"));
                object.insert("entryCount", Json::uint(*entry_count as u64));
            },
            Event::Locked { reason } => {
                object.insert("event", Json::text("locked"));
                object.insert("reason", Json::text(reason.as_str()));
            },
            Event::VaultChanged => {
                object.insert("event", Json::text("vault-changed"));
            },
            Event::ClipboardCleared { uuid, field } => {
                object.insert("event", Json::text("clipboard-cleared"));
                object.insert("uuid", Json::text(uuid.as_str()));
                object.insert("field", Json::text(field.as_str()));
            },
        }
        Json::object(object)
    }
}

} // verus!
