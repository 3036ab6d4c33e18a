//! Socket hardening, peer checks, and the auto-lock triggers.

use vstd::prelude::*;
use vstd::utf8::encode_utf8;

use crate::config::{Config, ConfigModel};
use crate::duration::Duration;
use crate::paths::{join, joined_path, optional_path_ref, parent, parent_of, shown, UnixPath};
use crate::text::{join2, join3, numeral, write_number};

verus! {

/// The permissions of the socket: its owner alone may use it.
pub const SOCKET_MODE: u32 = 0o600;

// ---------------------------------------------------------------- socket path

/// Where the socket is: where the settings put it, or else in the runtime
/// directory.
pub open spec fn socket_at(config: ConfigModel, runtime: Option<Seq<u8>>) -> Result<
    Seq<u8>,
    Seq<char>,
> {
    match (config.socket_path, runtime) {
        (Some(path), _) => Ok(path),
        (None, Some(runtime)) => Ok(joined_path(runtime, encode_utf8("omarkey.sock"@))),
        (None, None) => Err("XDG_RUNTIME_DIR is not set; cannot place the socket safely"@),
    }
}

/// The path that a search gave, or why it gave none.
pub open spec fn told(result: Result<UnixPath, String>) -> Result<Seq<u8>, Seq<char>> {
    match result {
        Ok(path) => Ok(path@),
        Err(why) => Err(why@),
    }
}

/// The verdict of a check.
pub open spec fn verdict(result: Result<(), String>) -> Option<Seq<char>> {
    match result {
        Ok(_) => None,
        Err(why) => Some(why@),
    }
}

/// Where the socket is, if `runtime` is the runtime directory.
pub fn socket_path(config: &Config, runtime: Option<&UnixPath>) -> (path: Result<
    UnixPath,
    String,
>)
    ensures
        told(path) == socket_at(config@, optional_path_ref(runtime)),
{
    match &config.socket_path {
        Some(path) => Ok(path.duplicate()),
        None => match runtime {
            Some(runtime) => Ok(join(runtime, &UnixPath::from_text("omarkey.sock"))),
            None => Err("XDG_RUNTIME_DIR is not set; cannot place the socket safely".to_owned()),
        },
    }
}

/// The directory that is to hold the socket.
pub open spec fn directory_of(socket: Seq<u8>) -> Result<Seq<u8>, Seq<char>> {
    match parent_of(socket) {
        Some(dir) => Ok(dir),
        None => Err("socket path has no parent directory"@),
    }
}

/// The directory that is to hold the socket.
pub fn runtime_dir(socket: &UnixPath) -> (dir: Result<UnixPath, String>)
    ensures
        told(dir) == directory_of(socket@),
{
    match parent(socket) {
        Some(dir) => Ok(dir),
        None => Err("socket path has no parent directory".to_owned()),
    }
}

/// What is known of the directory that is to hold the socket.
#[derive(Debug, Clone, Copy, PartialEq, Eq, Structural)]
pub struct DirStatus {
    pub is_dir: bool,
    pub uid: u32,
    pub mode: u32,
}

/// Why the socket may not be put into a directory, which is shown as `dir`, if it
/// may not: the directory
/// must exist, be a directory, be owned by the user, and not be writable by group
/// or other.
pub open spec fn runtime_dir_fault(
    dir: Seq<char>,
    status: Option<DirStatus>,
    uid: u32,
) -> Option<Seq<char>> {
    match status {
        None => Some("stat "@ + dir),
        Some(status) => {
            let mode = status.mode & 0o777;
            if !status.is_dir {
                Some(dir + " is not a directory"@)
            } else if status.uid != uid {
                Some(dir + " is not owned by uid "@ + numeral(uid as nat, 10))
            } else if mode & 0o022 != 0 {
                Some(
                    dir + " is writable by group or other (mode "@ + numeral(mode as nat, 8)
                        + ")"@,
                )
            } else {
                None
            }
        },
    }
}

/// Checks the directory that is to hold the socket of the user `uid`.
pub fn preflight_runtime_dir(dir: &UnixPath, status: Option<DirStatus>, uid: u32) -> (checked:
    Result<(), String>)
    ensures
        verdict(checked) == runtime_dir_fault(shown(dir@), status, uid),
{
    let dir: String = dir.display();
    let dir: &str = dir.as_str();
    let status: DirStatus = match status {
        Some(status) => status,
        None => return Err(join2("stat ", dir)),
    };
    if !status.is_dir {
        return Err(join2(dir, " is not a directory"));
    }
    if status.uid != uid {
        let number: String = write_number(uid as u64, 10);
        return Err(join3(dir, " is not owned by uid ", number.as_str()));
    }
    let mode: u32 = status.mode & 0o777;
    if mode & 0o022 != 0 {
        let number: String = write_number(mode as u64, 8);
        let head: String = join3(dir, " is writable by group or other (mode ", number.as_str());
        return Err(join2(head.as_str(), ")"));
    }
    Ok(())
}

/// The socket is placed only in an existing directory of the user that nobody
/// else can write to: neither the group's nor the others' write bit is set.
pub proof fn law_socket_only_in_private_directory(
    dir: Seq<char>,
    status: Option<DirStatus>,
    uid: u32,
)
    ensures
        runtime_dir_fault(dir, status, uid) is None <==> (status matches Some(status)
            && status.is_dir && status.uid == uid && status.mode & 0o020 == 0 && status.mode & 0o002
            == 0),
{
    if let Some(status) = status {
        let mode = status.mode;
        assert(((mode & 0o777) & 0o022 == 0) <==> (mode & 0o020 == 0 && mode & 0o002 == 0))
            by (bit_vector);
    }
}

// ---------------------------------------------------------------- socket in use

/// What is found where the socket is to be.
#[derive(Debug, Clone, Copy, PartialEq, Eq, Structural)]
pub enum SocketProbe {
    Absent,
    /// Something answers there.
    Live,
    /// Something is there that does not answer.
    Dead,
}

/// Decides about what is found where the socket is to be: `true` means that it has
/// to be removed first.
pub fn reclaim_stale_socket(path: &UnixPath, probe: SocketProbe) -> (remove: Result<bool, String>)
    ensures
        match probe {
            SocketProbe::Absent => remove == Ok::<bool, String>(false),
            SocketProbe::Dead => remove == Ok::<bool, String>(true),
            SocketProbe::Live => remove matches Err(why) && why@
                == "another omarkeyd is already listening on "@ + shown(path@),
        },
{
    match probe {
        SocketProbe::Absent => Ok(false),
        SocketProbe::Dead => Ok(true),
        SocketProbe::Live => {
            let path: String = path.display();
            Err(join2("another omarkeyd is already listening on ", path.as_str()))
        },
    }
}

/// Why a peer is turned away, if it is: its user is another one.
pub open spec fn peer_fault(peer: u32, uid: u32) -> Option<Seq<char>> {
    if peer == uid {
        None
    } else {
        Some("peer uid "@ + numeral(peer as nat, 10) + " != "@ + numeral(uid as nat, 10))
    }
}

/// Rejects a peer whose user is not `uid`.
pub fn verify_peer(peer: u32, uid: u32) -> (checked: Result<(), String>)
    ensures
        verdict(checked) == peer_fault(peer, uid),
{
    if peer != uid {
        let theirs: String = write_number(peer as u64, 10);
        let ours: String = write_number(uid as u64, 10);
        let head: String = join2("peer uid ", theirs.as_str());
        return Err(join3(head.as_str(), " != ", ours.as_str()));
    }
    Ok(())
}

// ---------------------------------------------------------------- idle clock

/// When the vault was last used, in milliseconds since the daemon started.
#[derive(Debug)]
pub struct ActivityClock {
    last: u64,
}

impl View for ActivityClock {
    type V = u64;

    closed spec fn view(&self) -> u64 {
        self.last
    }
}

/// How long nothing has happened at the time `now`, if something last happened at
/// `last`. Both are in milliseconds.
pub open spec fn idle_millis(last: u64, now: u64) -> nat {
    if now >= last {
        (now - last) as nat
    } else {
        0
    }
}

/// The seconds that are left before the vault locks itself, if it does.
pub open spec fn lock_seconds(limit: Option<nat>, last: u64, now: u64) -> Option<u64> {
    match limit {
        Some(limit) => Some(
            if limit >= idle_millis(last, now) {
                ((limit - idle_millis(last, now)) / 1000) as u64
            } else {
                0
            },
        ),
        None => None,
    }
}

/// The vault has been idle for long enough to lock itself.
pub open spec fn idle_lock_due(limit: Option<nat>, last: u64, now: u64) -> bool {
    limit matches Some(limit) && idle_millis(last, now) >= limit
}

impl ActivityClock {
    /// A clock on which nothing has happened since the daemon started.
    pub fn new() -> (clock: ActivityClock)
        ensures
            clock@ == 0,
    {
        ActivityClock { last: 0 }
    }

    /// Notes that something happens at the time `now`.
    pub fn touch(&mut self, now: u64)
        ensures
            final(self)@ == now,
    {
        self.last = now;
    }

    /// How long nothing has happened at the time `now`.
    pub fn idle_for(&self, now: u64) -> (idle: Duration)
        ensures
            idle@ == idle_millis(self@, now),
    {
        if now >= self.last {
            Duration::from_millis(now - self.last)
        } else {
            Duration::from_millis(0)
        }
    }

    /// The seconds that are left at the time `now` before the vault locks itself.
    pub fn remaining_lock_secs(&self, config: &Config, now: u64) -> (secs: Option<u64>)
        ensures
            secs == lock_seconds(config@.idle_lock, self@, now),
    {
        match config.idle_lock {
            Some(limit) => Some(limit.saturating_sub(self.idle_for(now)).as_secs()),
            None => None,
        }
    }

    /// Whether the vault has been idle for long enough at the time `now`.
    pub fn lock_due(&self, config: &Config, now: u64) -> (due: bool)
        ensures
            due == idle_lock_due(config@.idle_lock, self@, now),
    {
        match config.idle_lock {
            Some(limit) => !self.idle_for(now).shorter_than(&limit),
            None => false,
        }
    }
}

/// What is told of the time left agrees with what happens: a vault that is due to
/// lock has no second left, and one that has a second left is not due. Without a
/// limit the vault never locks itself.
pub proof fn law_remaining_time_is_honest(limit: Option<nat>, last: u64, now: u64)
    requires
        limit matches Some(limit) ==> limit / 1000 <= u64::MAX,
    ensures
        idle_lock_due(limit, last, now) ==> lock_seconds(limit, last, now) == Some(0u64),
        lock_seconds(limit, last, now) matches Some(secs) ==> secs > 0 ==> !idle_lock_due(
            limit,
            last,
            now,
        ),
        limit is None ==> lock_seconds(limit, last, now) is None && !idle_lock_due(limit, last, now),
        limit matches Some(limit) ==> lock_seconds(Some(limit), now, now) == Some(
            (limit / 1000) as u64,
        ),
{
}

/// Activity puts the lock off: a vault that was just used is not due before the
/// limit has passed, and is due from then on.
pub proof fn law_activity_puts_lock_off(limit: nat, touched: u64, now: u64)
    requires
        touched <= now,
    ensures
        idle_lock_due(Some(limit), touched, now) <==> now >= touched + limit,
{
}

// ---------------------------------------------------------------- logind

/// A signal of the login manager.
#[derive(Debug, Clone, Copy, PartialEq, Eq, Structural)]
pub enum SessionSignal {
    /// The session is locked.
    Lock,
    /// The machine is about to sleep, or has woken up; nothing if the signal cannot
    /// be read.
    PrepareForSleep(Option<bool>),
}

/// Whether a `PrepareForSleep` signal calls for a lock: it comes before the
/// suspend with `true` and after it with `false`. One that cannot be read counts
/// as coming before.
pub fn sleep_lock_due(about_to_sleep: Option<bool>) -> (due: bool)
    ensures
        due == (about_to_sleep != Some(false)),
{
    match about_to_sleep {
        Some(about) => about,
        None => true,
    }
}

/// How the login session is looked up.
#[derive(Debug)]
pub enum SessionQuery {
    /// By the identifier in the environment.
    ById(String),
    /// By the process.
    ByPid,
    /// In the list of all sessions.
    List,
}

/// The ways to look the session up, in the order in which they are tried.
#[derive(Debug, Clone, Copy, PartialEq, Eq, Structural)]
pub enum SessionWay {
    ById,
    ByPid,
    List,
}

impl SessionQuery {
    /// The way that the query takes.
    pub open spec fn way(self) -> SessionWay {
        match self {
            SessionQuery::ById(_) => SessionWay::ById,
            SessionQuery::ByPid => SessionWay::ByPid,
            SessionQuery::List => SessionWay::List,
        }
    }

    /// The first query, if `id` is the identifier in the environment.
    pub fn first(id: Option<String>) -> (query: SessionQuery)
        ensures
            match id {
                Some(id) => query matches SessionQuery::ById(asked) && asked@ == id@,
                None => query == SessionQuery::ByPid,
            },
    {
        match id {
            Some(id) => SessionQuery::ById(id),
            None => SessionQuery::ByPid,
        }
    }

    /// The query to make when this one has failed, if there is one.
    pub fn next(&self) -> (query: Option<SessionQuery>)
        ensures
            match self.way() {
                SessionWay::ById => query == Some(SessionQuery::ByPid),
                SessionWay::ByPid => query == Some(SessionQuery::List),
                SessionWay::List => query is None,
            },
    {
        match self {
            SessionQuery::ById(_) => Some(SessionQuery::ByPid),
            SessionQuery::ByPid => Some(SessionQuery::List),
            SessionQuery::List => None,
        }
    }
}

/// One session in the list of all sessions.
#[derive(Debug)]
pub struct SessionRow {
    pub uid: u32,
    pub seat: String,
    pub path: String,
}

/// A session belongs to a user and has a seat.
pub open spec fn is_seated(row: SessionRow, uid: u32) -> bool {
    row.uid == uid && row.seat@.len() > 0
}

/// The first session of the user `uid` that has a seat.
pub fn seated_session(rows: &Vec<SessionRow>, uid: u32) -> (path: Result<String, String>)
    ensures
        match path {
            Ok(path) => exists|i: int|
                0 <= i < rows.len() && is_seated(#[trigger] rows@[i], uid) && path@
                    == rows@[i].path@ && forall|j: int|
                    0 <= j < i ==> !is_seated(#[trigger] rows@[j], uid),
            Err(why) => (forall|i: int| 0 <= i < rows.len() ==> !is_seated(#[trigger] rows@[i], uid))
                && why@ == "no seated logind session found for this user"@,
        },
{
    let mut i: usize = 0;
    while i < rows.len()
        invariant
            i <= rows.len(),
            forall|j: int| 0 <= j < i ==> !is_seated(#[trigger] rows@[j], uid),
        decreases rows.len() - i,
    {
        if rows[i].uid == uid && !rows[i].seat.as_str().is_empty() {
            assert(is_seated(rows@[i as int], uid));
            return Ok(rows[i].path.clone());
        }
        i = i + 1;
    }
    Err("no seated logind session found for this user".to_owned())
}

} // verus!
