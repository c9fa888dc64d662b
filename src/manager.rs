//! The server registry and the process table, and the supervisor's
//! operations on them.
use vstd::prelude::*;
use crate::keyed::{
    keyed_map, lemma_keyed_absent, lemma_keyed_index, lemma_keyed_push, lemma_keyed_remove,
    lemma_keyed_update, unique_keys,
};
use crate::model::{RestartType, ServerInfo, ServerStatus, ServerType, copy_text};
use crate::paths::{join_path, joined, path_separator};
use crate::launch::{
    is_ascii_text, jvm_arguments, jvm_arguments_spec, memory_mb_ci, memory_mb_value, texts, trimmed,
    upper_of,
};

verus! {

/// Failures of the supervisor's operations.
#[derive(Debug, Clone, PartialEq, Eq)]
pub enum ServerError {
    /// No record has the identifier.
    NotFound,
    /// A start was asked of a running server.
    AlreadyRunning,
    /// A command was sent with no live process, or its input is lent out.
    NotRunning,
    /// A freshly generated identifier is already taken.
    DuplicateId,
    /// The operating system could not spawn the process.
    LaunchFailure(String),
    /// A directory or file operation failed.
    IoFailure(String),
}

/// A live process tracked under a server identifier. `stdin_ready` is false
/// while its input stream is lent to a writer.
#[derive(Debug)]
pub struct ProcessSlot {
    pub id: String,
    pub stdin_ready: bool,
}

pub open spec fn record_key() -> spec_fn(ServerInfo) -> Seq<char> {
    |r: ServerInfo| r.id@
}

pub open spec fn slot_key() -> spec_fn(ProcessSlot) -> Seq<char> {
    |p: ProcessSlot| p.id@
}

pub open spec fn slot_map(s: Seq<ProcessSlot>) -> Map<Seq<char>, bool> {
    keyed_map(s, slot_key()).map_values(|p: ProcessSlot| p.stdin_ready)
}

/// Declared status and live handles agree: a stopped server has no handle and
/// a running one has one.
pub open spec fn status_agrees(
    records: Map<Seq<char>, ServerInfo>,
    handles: Map<Seq<char>, bool>,
) -> bool {
    forall|k: Seq<char>| #[trigger]
        records.contains_key(k) ==> (records[k].status == ServerStatus::Stopped
            ==> !handles.contains_key(k)) && (records[k].status == ServerStatus::Running
            ==> handles.contains_key(k))
}

pub open spec fn running_in(records: Map<Seq<char>, ServerInfo>, id: Seq<char>) -> bool {
    records.contains_key(id) && records[id].status == ServerStatus::Running
}

/// A record as it is once its process is confirmed stopped.
pub open spec fn stopped_record(r: ServerInfo) -> ServerInfo {
    ServerInfo { status: ServerStatus::Stopped, last_start_time: None, ..r }
}

/// A record as it is when a start is issued at `now`.
pub open spec fn starting_record(r: ServerInfo, now: u64) -> ServerInfo {
    ServerInfo { status: ServerStatus::Starting, last_start_time: Some(now), ..r }
}

/// Whether a stop has work to do on a server in this status.
pub open spec fn stop_needed(s: ServerStatus) -> bool {
    s == ServerStatus::Running || s == ServerStatus::Starting
}

/// The registry of server records and the table of live processes.
pub struct ServerManager {
    servers: Vec<ServerInfo>,
    processes: Vec<ProcessSlot>,
    base_path: String,
    separator: char,
}

/// How a stop begins.
#[derive(Debug, Clone, Copy, PartialEq, Eq, Structural)]
pub enum StopStart {
    /// The server is stopped or stopping already: nothing to do.
    AlreadyStopped,
    /// The server is now Stopping: send the stop command, then poll.
    Proceed,
}

/// How a restart proceeds.
#[derive(Debug, Clone, Copy, PartialEq, Eq, Structural)]
pub enum RestartStep {
    StopThenStart,
    StartOnly,
}

fn same_text(a: &str, b: &String) -> (r: bool)
    ensures
        r == (a@ == b@),
{
    let s = String::from_str(a);
    s == *b
}

impl ServerManager {
    /// Identifier to record.
    pub closed spec fn records(&self) -> Map<Seq<char>, ServerInfo> {
        keyed_map(self.servers@, record_key())
    }

    /// Identifier to live handle; the value says whether its input stream is
    /// in the table.
    pub closed spec fn handles(&self) -> Map<Seq<char>, bool> {
        slot_map(self.processes@)
    }

    pub closed spec fn base(&self) -> Seq<char> {
        self.base_path@
    }

    /// The separator that this manager's paths use.
    pub closed spec fn sep(&self) -> char {
        self.separator
    }

    pub closed spec fn wf(&self) -> bool {
        &&& unique_keys(self.servers@, record_key())
        &&& unique_keys(self.processes@, slot_key())
        &&& status_agrees(self.records(), self.handles())
        &&& (self.separator == '/' || self.separator == '\\')
    }

    proof fn lemma_slot_at(&self, i: int)
        requires
            self.wf(),
            0 <= i < self.processes@.len(),
        ensures
            self.handles().contains_key(self.processes@[i].id@),
            self.handles()[self.processes@[i].id@] == self.processes@[i].stdin_ready,
    {
        lemma_keyed_index(self.processes@, slot_key(), i);
    }

    /// An empty registry whose servers are installed under `base_path`.
    pub fn new(base_path: String) -> (r: ServerManager)
        ensures
            r.wf(),
            r.records() == Map::<Seq<char>, ServerInfo>::empty(),
            r.handles() == Map::<Seq<char>, bool>::empty(),
            r.base() == base_path@,
            r.sep() == '/' || r.sep() == '\\',
    {
        let r = ServerManager {
            servers: Vec::new(),
            processes: Vec::new(),
            base_path,
            separator: path_separator(),
        };
        assert(r.records() =~= Map::<Seq<char>, ServerInfo>::empty());
        assert(r.handles() =~= Map::<Seq<char>, bool>::empty());
        r
    }

    fn find_server(&self, id: &str) -> (r: Option<usize>)
        requires
            unique_keys(self.servers@, record_key()),
        ensures
            match r {
                Some(i) => i < self.servers@.len() && self.servers@[i as int].id@ == id@
                    && self.records().contains_key(id@) && self.records()[id@]
                    == self.servers@[i as int],
                None => !self.records().contains_key(id@),
            },
    {
        let mut i: usize = 0;
        while i < self.servers.len()
            invariant
                unique_keys(self.servers@, record_key()),
                i <= self.servers@.len(),
                forall|j: int| 0 <= j < i ==> #[trigger] self.servers@[j].id@ != id@,
            decreases self.servers@.len() - i,
        {
            if same_text(id, &self.servers[i].id) {
                proof {
                    lemma_keyed_index(self.servers@, record_key(), i as int);
                }
                return Some(i);
            }
            i = i + 1;
        }
        proof {
            lemma_keyed_absent(self.servers@, record_key(), id@);
        }
        None
    }

    fn find_slot(&self, id: &str) -> (r: Option<usize>)
        requires
            self.wf(),
        ensures
            match r {
                Some(i) => i < self.processes@.len() && self.processes@[i as int].id@ == id@
                    && self.handles().contains_key(id@) && self.handles()[id@]
                    == self.processes@[i as int].stdin_ready,
                None => !self.handles().contains_key(id@),
            },
    {
        let mut i: usize = 0;
        while i < self.processes.len()
            invariant
                self.wf(),
                i <= self.processes@.len(),
                forall|j: int| 0 <= j < i ==> #[trigger] self.processes@[j].id@ != id@,
            decreases self.processes@.len() - i,
        {
            if same_text(id, &self.processes[i].id) {
                proof {
                    self.lemma_slot_at(i as int);
                }
                return Some(i);
            }
            i = i + 1;
        }
        proof {
            lemma_keyed_absent(self.processes@, slot_key(), id@);
        }
        None
    }

    /// The record of a server, if there is one.
    pub fn get_server(&self, id: &str) -> (r: Option<ServerInfo>)
        requires
            self.wf(),
        ensures
            r == (if self.records().contains_key(id@) {
                Some(self.records()[id@])
            } else {
                None
            }),
    {
        match self.find_server(id) {
            Some(i) => Some(self.servers[i].duplicate()),
            None => None,
        }
    }

    /// Whether a live handle is tracked for the server.
    pub fn has_process(&self, id: &str) -> (r: bool)
        requires
            self.wf(),
        ensures
            r == self.handles().contains_key(id@),
    {
        self.find_slot(id).is_some()
    }
}


/// A record as it is loaded from storage: no process survives a restart of
/// the application, so it is stopped and has no process id.
pub open spec fn reloaded_record(r: ServerInfo) -> ServerInfo {
    ServerInfo { status: ServerStatus::Stopped, pid: None, ..r }
}

/// The records after loading `s` in order into `m`: each loaded record
/// replaces the one with its identifier, except where a live handle runs
/// under that identifier.
pub open spec fn merged(
    m: Map<Seq<char>, ServerInfo>,
    h: Map<Seq<char>, bool>,
    s: Seq<ServerInfo>,
) -> Map<Seq<char>, ServerInfo>
    decreases s.len(),
{
    if s.len() == 0 {
        m
    } else {
        let prev = merged(m, h, s.drop_last());
        if h.contains_key(s.last().id@) {
            prev
        } else {
            prev.insert(s.last().id@, reloaded_record(s.last()))
        }
    }
}

proof fn lemma_taken_id(
    records: Map<Seq<char>, ServerInfo>,
    handles: Map<Seq<char>, bool>,
    k: Seq<char>,
)
    requires
        k.len() == 36,
        records.contains_key(k) || handles.contains_key(k),
    ensures
        exists|j: Seq<char>|
            j.len() == 36 && (#[trigger] records.contains_key(j) || handles.contains_key(j)),
{
    assert(records.contains_key(k) || handles.contains_key(k));
}

/// A freshly created record: stopped, with no process, start time or
/// automatic restart, installed at the base path joined with its identifier,
/// its minimum heap equal to its maximum and "0/20" players.
pub open spec fn is_new_record(
    info: ServerInfo,
    base: Seq<char>,
    sep: char,
    name: String,
    version: String,
    server_type: ServerType,
    port: u16,
    max_memory: String,
) -> bool {
    &&& info.path@ == joined(base, sep, info.id@)
    &&& info.name == name
    &&& info.version == version
    &&& info.server_type == server_type
    &&& info.status == ServerStatus::Stopped
    &&& info.pid is None
    &&& info.port == port
    &&& info.max_memory == max_memory
    &&& info.min_memory@ == max_memory@
    &&& info.players@ == "0/20"@
    &&& !info.auto_restart
    &&& info.restart_interval == 86400
    &&& info.restart_type == RestartType::Interval
    &&& info.restart_schedule is None
    &&& info.time_zone is None
    &&& info.last_start_time is None
}

pub open spec fn is_lower_hex_or_dash(c: char) -> bool {
    ('0' <= c && c <= '9') || ('a' <= c && c <= 'f') || c == '-'
}

/// Relies on uuid::Uuid::new_v4 and its `Display`: a random identifier in
/// hyphenated lower-case form, 36 characters of hex digits and dashes.
#[verifier::external_body]
fn new_server_id() -> (r: String)
    ensures
        r@.len() == 36,
        forall|i: int| 0 <= i < r@.len() ==> #[trigger] is_lower_hex_or_dash(r@[i]),
{
    uuid::Uuid::new_v4().to_string()
}

/// What `start_server` hands to the caller that spawns the process.
#[derive(Debug)]
pub struct StartPlan {
    /// JVM arguments, in order.
    pub args: Vec<String>,
    /// The server jar inside the install directory.
    pub jar_path: String,
    /// The install directory, where the process runs.
    pub working_dir: String,
}

/// The outcome of one poll of the graceful-shutdown wait.
#[derive(Debug, Clone, Copy, PartialEq, Eq, Structural)]
pub enum StopPoll {
    /// Sleep this many milliseconds, then poll again.
    Wait(u64),
    /// Stop waiting and finish the stop.
    Finish,
}

/// Milliseconds between two polls of the graceful-shutdown wait.
pub const POLL_INTERVAL_MS: u64 = 200;

/// Milliseconds after which the graceful-shutdown wait gives up.
pub const GRACE_CEILING_MS: u64 = 30000;

impl ServerManager {
    fn set_record(&mut self, i: usize, r: ServerInfo)
        requires
            unique_keys(old(self).servers@, record_key()),
            i < old(self).servers@.len(),
            r.id@ == old(self).servers@[i as int].id@,
        ensures
            unique_keys(final(self).servers@, record_key()),
            final(self).records() == old(self).records().insert(r.id@, r),
            final(self).processes == old(self).processes,
            final(self).base_path == old(self).base_path,
            final(self).separator == old(self).separator,
    {
        proof {
            lemma_keyed_update(self.servers@, record_key(), i as int, r);
        }
        self.servers.set(i, r);
    }

    fn add_record(&mut self, r: ServerInfo)
        requires
            unique_keys(old(self).servers@, record_key()),
            !old(self).records().contains_key(r.id@),
        ensures
            unique_keys(final(self).servers@, record_key()),
            final(self).records() == old(self).records().insert(r.id@, r),
            final(self).processes == old(self).processes,
            final(self).base_path == old(self).base_path,
            final(self).separator == old(self).separator,
    {
        proof {
            lemma_keyed_push(self.servers@, record_key(), r);
        }
        self.servers.push(r);
    }

    fn set_slot(&mut self, i: usize, ready: bool)
        requires
            old(self).wf(),
            i < old(self).processes@.len(),
        ensures
            unique_keys(final(self).processes@, slot_key()),
            final(self).handles() == old(self).handles().insert(
                old(self).processes@[i as int].id@,
                ready,
            ),
            final(self).servers == old(self).servers,
            final(self).base_path == old(self).base_path,
            final(self).separator == old(self).separator,
    {
        let id = self.processes[i].id.clone();
        let slot = ProcessSlot { id, stdin_ready: ready };
        proof {
            lemma_keyed_update(self.processes@, slot_key(), i as int, slot);
        }
        self.processes.set(i, slot);
        assert(final(self).handles() =~= old(self).handles().insert(
            old(self).processes@[i as int].id@,
            ready,
        ));
    }

    fn drop_slot(&mut self, i: usize)
        requires
            old(self).wf(),
            i < old(self).processes@.len(),
        ensures
            unique_keys(final(self).processes@, slot_key()),
            final(self).handles() == old(self).handles().remove(old(self).processes@[i as int].id@),
            final(self).servers == old(self).servers,
            final(self).base_path == old(self).base_path,
            final(self).separator == old(self).separator,
    {
        proof {
            lemma_keyed_remove(self.processes@, slot_key(), i as int);
        }
        self.processes.remove(i);
        assert(final(self).handles() =~= old(self).handles().remove(
            old(self).processes@[i as int].id@,
        ));
    }

    /// Creates the record of a new, stopped server under the identifier `id`,
    /// installed at the base path joined with the identifier. Fails with
    /// `DuplicateId`, changing nothing, when a record or a live process already
    /// has the identifier.
    pub fn create_server_with_id(
        &mut self,
        id: String,
        name: String,
        version: String,
        server_type: ServerType,
        port: u16,
        max_memory: String,
    ) -> (r: Result<ServerInfo, ServerError>)
        requires
            old(self).wf(),
        ensures
            final(self).wf(),
            final(self).handles() == old(self).handles(),
            final(self).base() == old(self).base(),
            final(self).sep() == old(self).sep(),
            r is Err <==> (old(self).records().contains_key(id@) || old(self).handles().contains_key(
                id@,
            )),
            r is Err ==> r == Err::<ServerInfo, ServerError>(ServerError::DuplicateId)
                && final(self).records() == old(self).records(),
            r matches Ok(info) ==> info.id == id && final(self).records() == old(
                self,
            ).records().insert(id@, info) && is_new_record(
                info,
                old(self).base(),
                old(self).sep(),
                name,
                version,
                server_type,
                port,
                max_memory,
            ),
    {
        if self.find_server(id.as_str()).is_some() || self.has_process(id.as_str()) {
            return Err(ServerError::DuplicateId);
        }
        let path = join_path(self.base_path.as_str(), self.separator, id.as_str());
        let min_memory = copy_text(&max_memory);
        let info = ServerInfo {
            id,
            name,
            path,
            version,
            server_type,
            status: ServerStatus::Stopped,
            pid: None,
            port,
            max_memory,
            min_memory,
            players: String::from_str("0/20"),
            auto_restart: false,
            restart_interval: 86400,
            restart_type: RestartType::Interval,
            restart_schedule: None,
            time_zone: None,
            last_start_time: None,
        };
        let copy = info.duplicate();
        self.add_record(info);
        Ok(copy)
    }

    /// Creates the record of a new, stopped server under a fresh random
    /// identifier (see `create_server_with_id`). Fails with `DuplicateId` only
    /// when the identifier drawn is taken.
    pub fn create_server(
        &mut self,
        name: String,
        version: String,
        server_type: ServerType,
        port: u16,
        max_memory: String,
    ) -> (r: Result<ServerInfo, ServerError>)
        requires
            old(self).wf(),
        ensures
            final(self).wf(),
            final(self).handles() == old(self).handles(),
            final(self).base() == old(self).base(),
            final(self).sep() == old(self).sep(),
            r matches Ok(info) ==> {
                &&& !old(self).records().contains_key(info.id@)
                &&& final(self).records() == old(self).records().insert(info.id@, info)
                &&& info.id@.len() == 36
                &&& is_new_record(
                    info,
                    old(self).base(),
                    old(self).sep(),
                    name,
                    version,
                    server_type,
                    port,
                    max_memory,
                )
            },
            r matches Err(e) ==> {
                &&& e == ServerError::DuplicateId
                &&& final(self).records() == old(self).records()
                &&& exists|k: Seq<char>|
                    k.len() == 36 && (#[trigger] old(self).records().contains_key(k)
                        || old(self).handles().contains_key(k))
            },
    {
        let id = new_server_id();
        let ghost drawn = id@;
        let r = self.create_server_with_id(id, name, version, server_type, port, max_memory);
        match &r {
            Ok(info) => {
                assert(info.id@ == drawn);
            },
            Err(_) => {
                assert(drawn.len() == 36 && (old(self).records().contains_key(drawn)
                    || old(self).handles().contains_key(drawn)));
                proof {
                    lemma_taken_id(old(self).records(), old(self).handles(), drawn);
                }
            },
        }
        r
    }

    /// Sets a server's automatic-restart policy.
    pub fn set_auto_restart(
        &mut self,
        id: &str,
        enabled: bool,
        restart_type: RestartType,
        interval: u64,
        schedule: Option<String>,
        time_zone: Option<String>,
    ) -> (r: Result<(), ServerError>)
        requires
            old(self).wf(),
        ensures
            final(self).wf(),
            final(self).handles() == old(self).handles(),
            final(self).base() == old(self).base(),
            final(self).sep() == old(self).sep(),
            r is Err <==> !old(self).records().contains_key(id@),
            r is Err ==> r == Err::<(), ServerError>(ServerError::NotFound) && final(self).records()
                == old(self).records(),
            r is Ok ==> final(self).records() == old(self).records().insert(
                id@,
                (ServerInfo {
                    auto_restart: enabled,
                    restart_type,
                    restart_interval: interval,
                    restart_schedule: schedule,
                    time_zone,
                    ..old(self).records()[id@]
                }),
            ),
    {
        match self.find_server(id) {
            None => Err(ServerError::NotFound),
            Some(i) => {
                let mut rec = self.servers[i].duplicate();
                rec.auto_restart = enabled;
                rec.restart_type = restart_type;
                rec.restart_interval = interval;
                rec.restart_schedule = schedule;
                rec.time_zone = time_zone;
                self.set_record(i, rec);
                Ok(())
            },
        }
    }

    /// Sets a server's heap bounds.
    pub fn set_server_memory(&mut self, id: &str, max_memory: &str, min_memory: &str) -> (r: Result<
        (),
        ServerError,
    >)
        requires
            old(self).wf(),
        ensures
            final(self).wf(),
            final(self).handles() == old(self).handles(),
            final(self).base() == old(self).base(),
            final(self).sep() == old(self).sep(),
            r is Err <==> !old(self).records().contains_key(id@),
            r is Err ==> r == Err::<(), ServerError>(ServerError::NotFound) && final(self).records()
                == old(self).records(),
            r is Ok ==> final(self).records().dom() == old(self).records().dom() && final(self).records()[id@].max_memory@ == max_memory@ && final(self).records()[id@].min_memory@
                == min_memory@ && (forall|k: Seq<char>|
                k != id@ ==> #[trigger] final(self).records().index(k) == old(self).records().index(k)),
    {
        match self.find_server(id) {
            None => Err(ServerError::NotFound),
            Some(i) => {
                let mut rec = self.servers[i].duplicate();
                rec.max_memory = String::from_str(max_memory);
                rec.min_memory = String::from_str(min_memory);
                self.set_record(i, rec);
                Ok(())
            },
        }
    }

    /// Removes a server's record and returns it. Stop the server first; its
    /// directory is the caller's to delete.
    pub fn remove_server(&mut self, id: &str) -> (r: Result<ServerInfo, ServerError>)
        requires
            old(self).wf(),
        ensures
            final(self).wf(),
            final(self).handles() == old(self).handles(),
            final(self).base() == old(self).base(),
            final(self).sep() == old(self).sep(),
            match r {
                Ok(info) => old(self).records().contains_key(id@) && info == old(self).records()[id@]
                    && final(self).records() == old(self).records().remove(id@),
                Err(e) => e == ServerError::NotFound && !old(self).records().contains_key(id@)
                    && final(self).records() == old(self).records(),
            },
    {
        match self.find_server(id) {
            None => Err(ServerError::NotFound),
            Some(i) => {
                proof {
                    lemma_keyed_remove(self.servers@, record_key(), i as int);
                }
                let info = self.servers.remove(i);
                Ok(info)
            },
        }
    }

    /// All records, one per identifier, in no particular order.
    pub fn get_servers(&self) -> (r: Vec<ServerInfo>)
        requires
            self.wf(),
        ensures
            unique_keys(r@, record_key()),
            keyed_map(r@, record_key()) == self.records(),
    {
        let mut out: Vec<ServerInfo> = Vec::new();
        let mut i: usize = 0;
        while i < self.servers.len()
            invariant
                i <= self.servers@.len(),
                out@ == self.servers@.subrange(0, i as int),
            decreases self.servers@.len() - i,
        {
            out.push(self.servers[i].duplicate());
            i = i + 1;
            assert(out@ =~= self.servers@.subrange(0, i as int));
        }
        assert(out@ =~= self.servers@);
        out
    }

    /// Loads stored records in order, each as stopped with no process id,
    /// replacing a record with the same identifier; a record whose identifier
    /// has a live process is left as it is.
    pub fn load_servers(&mut self, list: Vec<ServerInfo>)
        requires
            old(self).wf(),
        ensures
            final(self).wf(),
            final(self).handles() == old(self).handles(),
            final(self).base() == old(self).base(),
            final(self).sep() == old(self).sep(),
            final(self).records() == merged(old(self).records(), old(self).handles(), list@),
    {
        let ghost m0 = self.records();
        let ghost h0 = self.handles();
        let mut i: usize = 0;
        assert(list@.subrange(0, 0) =~= Seq::<ServerInfo>::empty());
        while i < list.len()
            invariant
                self.wf(),
                i <= list@.len(),
                self.handles() == h0,
                self.base() == old(self).base(),
                self.sep() == old(self).sep(),
                self.records() == merged(m0, h0, list@.subrange(0, i as int)),
            decreases list@.len() - i,
        {
            let ghost pre = list@.subrange(0, i as int + 1);
            assert(pre.drop_last() =~= list@.subrange(0, i as int));
            assert(pre.last() == list@[i as int]);
            let item = &list[i];
            if !self.has_process(item.id.as_str()) {
                let mut rec = item.duplicate();
                rec.status = ServerStatus::Stopped;
                rec.pid = None;
                assert(rec == reloaded_record(list@[i as int]));
                match self.find_server(rec.id.as_str()) {
                    Some(j) => {
                        self.set_record(j, rec);
                    },
                    None => {
                        self.add_record(rec);
                    },
                }
            }
            i = i + 1;
        }
        assert(list@.subrange(0, list@.len() as int) =~= list@);
    }
}


impl ServerManager {
    /// Issues a start at `now` (seconds since the epoch): the record becomes
    /// Starting with that start time, and the plan to spawn comes back. Fails
    /// with `NotFound` for an unknown server and `AlreadyRunning` for a
    /// running one, changing nothing. After spawning, call `mark_started`, or
    /// `finish_stop` when the spawn failed.
    pub fn start_server(&mut self, id: &str, now: u64) -> (r: Result<StartPlan, ServerError>)
        requires
            old(self).wf(),
        ensures
            final(self).wf(),
            final(self).handles() == old(self).handles(),
            final(self).base() == old(self).base(),
            final(self).sep() == old(self).sep(),
            !old(self).records().contains_key(id@) ==> r == Err::<StartPlan, ServerError>(
                ServerError::NotFound,
            ),
            old(self).records().contains_key(id@) && old(self).records()[id@].status
                == ServerStatus::Running ==> r == Err::<StartPlan, ServerError>(
                ServerError::AlreadyRunning,
            ),
            old(self).records().contains_key(id@) && old(self).records()[id@].status
                != ServerStatus::Running ==> r is Ok,
            r is Err ==> final(self).records() == old(self).records(),
            match r {
                Ok(plan) => {
                    let rec = old(self).records()[id@];
                    &&& old(self).records().contains_key(id@)
                    &&& rec.status != ServerStatus::Running
                    &&& final(self).records() == old(self).records().insert(
                        id@,
                        starting_record(rec, now),
                    )
                    &&& plan.working_dir == rec.path
                    &&& plan.jar_path@ == joined(rec.path@, old(self).sep(), "server.jar"@)
                    &&& texts(plan.args@) == jvm_arguments_spec(
                        rec.max_memory@,
                        rec.min_memory@,
                        plan.jar_path@,
                        memory_mb_value(upper_of(trimmed(rec.max_memory@))),
                    )
                    &&& is_ascii_text(trimmed(rec.max_memory@)) ==> texts(plan.args@)
                        == jvm_arguments_spec(
                        rec.max_memory@,
                        rec.min_memory@,
                        plan.jar_path@,
                        memory_mb_ci(trimmed(rec.max_memory@)),
                    )
                },
                Err(_) => true,
            },
    {
        let i = match self.find_server(id) {
            None => {
                return Err(ServerError::NotFound);
            },
            Some(i) => i,
        };
        if self.servers[i].status == ServerStatus::Running {
            return Err(ServerError::AlreadyRunning);
        }
        let mut rec = self.servers[i].duplicate();
        rec.status = ServerStatus::Starting;
        rec.last_start_time = Some(now);
        let jar_name = "server.jar";
        proof {
            reveal_strlit("server.jar");
        }
        let jar_path = join_path(rec.path.as_str(), self.separator, jar_name);
        let args = jvm_arguments(rec.max_memory.as_str(), rec.min_memory.as_str(), jar_path.as_str());
        let working_dir = copy_text(&rec.path);
        self.set_record(i, rec);
        Ok(StartPlan { args, jar_path, working_dir })
    }

    /// Registers the spawned process of a server and marks it Running. Fails
    /// with `NotFound`, changing nothing, if the record is gone; the caller
    /// then kills the process it spawned.
    pub fn mark_started(&mut self, id: &str) -> (r: Result<(), ServerError>)
        requires
            old(self).wf(),
        ensures
            final(self).wf(),
            final(self).base() == old(self).base(),
            final(self).sep() == old(self).sep(),
            r is Err <==> !old(self).records().contains_key(id@),
            r is Err ==> r == Err::<(), ServerError>(ServerError::NotFound) && final(self).records()
                == old(self).records() && final(self).handles() == old(self).handles(),
            r is Ok ==> final(self).records() == old(self).records().insert(
                id@,
                (ServerInfo { status: ServerStatus::Running, ..old(self).records()[id@] }),
            ) && final(self).handles() == old(self).handles().insert(id@, true),
    {
        let i = match self.find_server(id) {
            None => {
                return Err(ServerError::NotFound);
            },
            Some(i) => i,
        };
        match self.find_slot(id) {
            Some(j) => {
                self.set_slot(j, true);
            },
            None => {
                let slot = ProcessSlot { id: String::from_str(id), stdin_ready: true };
                proof {
                    lemma_keyed_push(self.processes@, slot_key(), slot);
                }
                self.processes.push(slot);
                assert(self.handles() =~= old(self).handles().insert(id@, true));
            },
        }
        let mut rec = self.servers[i].duplicate();
        rec.status = ServerStatus::Running;
        self.set_record(i, rec);
        Ok(())
    }

    /// Begins a stop. A stopped or stopping server needs nothing and nothing
    /// changes; otherwise the record becomes Stopping. Fails with `NotFound`
    /// for an unknown server.
    pub fn stop_server(&mut self, id: &str) -> (r: Result<StopStart, ServerError>)
        requires
            old(self).wf(),
        ensures
            final(self).wf(),
            final(self).handles() == old(self).handles(),
            final(self).base() == old(self).base(),
            final(self).sep() == old(self).sep(),
            r is Err <==> !old(self).records().contains_key(id@),
            r is Err ==> r == Err::<StopStart, ServerError>(ServerError::NotFound),
            r == Ok::<StopStart, ServerError>(StopStart::AlreadyStopped) <==> (old(
                self,
            ).records().contains_key(id@) && !stop_needed(old(self).records()[id@].status)),
            r != Ok::<StopStart, ServerError>(StopStart::Proceed) ==> final(self).records() == old(
                self,
            ).records(),
            r == Ok::<StopStart, ServerError>(StopStart::Proceed) ==> final(self).records() == old(
                self,
            ).records().insert(
                id@,
                (ServerInfo { status: ServerStatus::Stopping, ..old(self).records()[id@] }),
            ),
    {
        let i = match self.find_server(id) {
            None => {
                return Err(ServerError::NotFound);
            },
            Some(i) => i,
        };
        let status = self.servers[i].status;
        if status == ServerStatus::Stopped || status == ServerStatus::Stopping {
            return Ok(StopStart::AlreadyStopped);
        }
        let mut rec = self.servers[i].duplicate();
        rec.status = ServerStatus::Stopping;
        self.set_record(i, rec);
        Ok(StopStart::Proceed)
    }

    /// Whether the record of `id` is Running.
    fn is_running(&self, id: &str) -> (r: bool)
        requires
            self.wf(),
        ensures
            r == running_in(self.records(), id@),
    {
        match self.find_server(id) {
            Some(i) => self.servers[i].status == ServerStatus::Running,
            None => false,
        }
    }

    /// One poll of the graceful-shutdown wait, `elapsed_ms` after the stop
    /// command was sent; `exited` says whether the process was seen to have
    /// exited. Once the ceiling is reached the wait ends with the handle in
    /// place, to be killed. Otherwise an exited process, or one no longer in
    /// the table, ends the wait and leaves the table (unless a new start has
    /// made the server Running meanwhile); a live one means waiting one more
    /// interval.
    pub fn poll_stop(&mut self, id: &str, exited: bool, elapsed_ms: u64) -> (r: StopPoll)
        requires
            old(self).wf(),
        ensures
            final(self).wf(),
            final(self).records() == old(self).records(),
            final(self).base() == old(self).base(),
            final(self).sep() == old(self).sep(),
            elapsed_ms >= GRACE_CEILING_MS ==> r == StopPoll::Finish && final(self).handles() == old(
                self,
            ).handles(),
            elapsed_ms < GRACE_CEILING_MS && (exited || !old(self).handles().contains_key(id@))
                ==> r == StopPoll::Finish && final(self).handles() == (if running_in(
                old(self).records(),
                id@,
            ) {
                old(self).handles()
            } else {
                old(self).handles().remove(id@)
            }),
            elapsed_ms < GRACE_CEILING_MS && !exited && old(self).handles().contains_key(id@) ==> r
                == StopPoll::Wait(POLL_INTERVAL_MS) && final(self).handles() == old(self).handles(),
    {
        if elapsed_ms >= GRACE_CEILING_MS {
            return StopPoll::Finish;
        }
        match self.find_slot(id) {
            None => {
                assert(old(self).handles().remove(id@) =~= old(self).handles());
                StopPoll::Finish
            },
            Some(j) => {
                if exited {
                    if !self.is_running(id) {
                        self.release_slot(j);
                    }
                    StopPoll::Finish
                } else {
                    StopPoll::Wait(POLL_INTERVAL_MS)
                }
            },
        }
    }

    fn release_slot(&mut self, j: usize)
        requires
            old(self).wf(),
            j < old(self).processes@.len(),
            !running_in(old(self).records(), old(self).processes@[j as int].id@),
        ensures
            final(self).wf(),
            final(self).records() == old(self).records(),
            final(self).base() == old(self).base(),
            final(self).sep() == old(self).sep(),
            final(self).handles() == old(self).handles().remove(old(self).processes@[j as int].id@),
    {
        let ghost k = self.processes@[j as int].id@;
        proof {
            self.lemma_slot_at(j as int);
        }
        self.drop_slot(j);
        assert(status_agrees(self.records(), self.handles())) by {
            assert forall|key: Seq<char>| #[trigger] self.records().contains_key(key) implies (
            self.records()[key].status == ServerStatus::Stopped ==> !self.handles().contains_key(
                key,
            )) && (self.records()[key].status == ServerStatus::Running
                ==> self.handles().contains_key(key)) by {
                assert(old(self).records().contains_key(key));
                if key == k && self.records()[key].status == ServerStatus::Running {
                    assert(old(self).handles().contains_key(key));
                }
            }
        }
    }

    /// Ends a stop, or a start whose spawn failed: the handle leaves the table
    /// and the record, if any, becomes Stopped with no start time. Returns
    /// whether a handle was still there, which the caller then kills.
    pub fn finish_stop(&mut self, id: &str) -> (r: bool)
        requires
            old(self).wf(),
        ensures
            final(self).wf(),
            final(self).base() == old(self).base(),
            final(self).sep() == old(self).sep(),
            r == old(self).handles().contains_key(id@),
            final(self).handles() == old(self).handles().remove(id@),
            final(self).records() == (if old(self).records().contains_key(id@) {
                old(self).records().insert(id@, stopped_record(old(self).records()[id@]))
            } else {
                old(self).records()
            }),
    {
        let ghost mid_records = self.records();
        let had = match self.find_slot(id) {
            Some(j) => {
                let ghost before = self.handles();
                let ghost k = self.processes@[j as int].id@;
                proof {
                    lemma_keyed_remove(self.processes@, slot_key(), j as int);
                }
                self.processes.remove(j);
                assert(self.handles() =~= before.remove(k));
                true
            },
            None => {
                assert(old(self).handles().remove(id@) =~= old(self).handles());
                false
            },
        };
        match self.find_server(id) {
            Some(i) => {
                let mut rec = self.servers[i].duplicate();
                rec.status = ServerStatus::Stopped;
                rec.last_start_time = None;
                proof {
                    lemma_keyed_update(self.servers@, record_key(), i as int, rec);
                }
                self.servers.set(i, rec);
            },
            None => {},
        }
        had
    }

    /// Lends out a server's input stream so that one writer can send a
    /// command. Fails with `NotRunning` when no process is tracked or its
    /// input is already lent out.
    pub fn take_stdin(&mut self, id: &str) -> (r: Result<(), ServerError>)
        requires
            old(self).wf(),
        ensures
            final(self).wf(),
            final(self).records() == old(self).records(),
            final(self).base() == old(self).base(),
            final(self).sep() == old(self).sep(),
            r is Ok <==> (old(self).handles().contains_key(id@) && old(self).handles()[id@]),
            r is Err ==> r == Err::<(), ServerError>(ServerError::NotRunning) && final(self).handles()
                == old(self).handles(),
            r is Ok ==> final(self).handles() == old(self).handles().insert(id@, false),
    {
        match self.find_slot(id) {
            None => Err(ServerError::NotRunning),
            Some(j) => {
                if !self.processes[j].stdin_ready {
                    return Err(ServerError::NotRunning);
                }
                self.set_slot(j, false);
                assert(status_agrees(self.records(), self.handles()));
                Ok(())
            },
        }
    }

    /// Gives a lent input stream back to the table; nothing changes when the
    /// process has left the table meanwhile.
    pub fn return_stdin(&mut self, id: &str)
        requires
            old(self).wf(),
        ensures
            final(self).wf(),
            final(self).records() == old(self).records(),
            final(self).base() == old(self).base(),
            final(self).sep() == old(self).sep(),
            final(self).handles() == (if old(self).handles().contains_key(id@) {
                old(self).handles().insert(id@, true)
            } else {
                old(self).handles()
            }),
    {
        match self.find_slot(id) {
            None => {},
            Some(j) => {
                self.set_slot(j, true);
                assert(status_agrees(self.records(), self.handles()));
            },
        }
    }

    /// How a restart proceeds: a running or starting server is stopped first.
    /// Fails with `NotFound` for an unknown server.
    pub fn restart_server(&self, id: &str) -> (r: Result<RestartStep, ServerError>)
        requires
            self.wf(),
        ensures
            r is Err <==> !self.records().contains_key(id@),
            r is Err ==> r == Err::<RestartStep, ServerError>(ServerError::NotFound),
            r is Ok ==> (r == Ok::<RestartStep, ServerError>(RestartStep::StopThenStart) <==> stop_needed(
                self.records()[id@].status,
            )),
    {
        match self.find_server(id) {
            None => Err(ServerError::NotFound),
            Some(i) => {
                let status = self.servers[i].status;
                if status == ServerStatus::Running || status == ServerStatus::Starting {
                    Ok(RestartStep::StopThenStart)
                } else {
                    Ok(RestartStep::StartOnly)
                }
            },
        }
    }
}


/// The directory, under a server's install directory, that holds its
/// plugins or mods.
pub open spec fn plugin_dir_of(t: ServerType) -> Seq<char> {
    match t {
        ServerType::Fabric | ServerType::Mohist | ServerType::Forge | ServerType::Taiyitist
        | ServerType::Banner => "mods"@,
        _ => "plugins"@,
    }
}

/// The line sent to a server's console for a command: the command as
/// given, then a newline.
pub fn command_line(command: &str) -> (r: String)
    ensures
        r@ == command@ + "\n"@,
{
    String::from_str(command).concat("\n")
}

/// The console command that makes a player an operator.
pub fn grant_op_command(player: &str) -> (r: String)
    ensures
        r@ == "op "@ + player@,
{
    String::from_str("op ").concat(player)
}

/// The console command that takes operator rights from a player.
pub fn revoke_op_command(player: &str) -> (r: String)
    ensures
        r@ == "deop "@ + player@,
{
    String::from_str("deop ").concat(player)
}

impl ServerManager {
    /// The directory that holds a server's plugins, or its mods for modded
    /// server types. Fails with `NotFound` for an unknown server.
    pub fn get_plugins_path(&self, id: &str) -> (r: Result<String, ServerError>)
        requires
            self.wf(),
        ensures
            r is Err <==> !self.records().contains_key(id@),
            r is Err ==> r == Err::<String, ServerError>(ServerError::NotFound),
            r matches Ok(p) ==> p@ == joined(
                self.records()[id@].path@,
                self.sep(),
                plugin_dir_of(self.records()[id@].server_type),
            ),
    {
        match self.find_server(id) {
            None => Err(ServerError::NotFound),
            Some(i) => {
                let dir = match self.servers[i].server_type {
                    ServerType::Fabric | ServerType::Mohist | ServerType::Forge
                    | ServerType::Taiyitist | ServerType::Banner => "mods",
                    _ => "plugins",
                };
                proof {
                    reveal_strlit("mods");
                    reveal_strlit("plugins");
                }
                Ok(join_path(self.servers[i].path.as_str(), self.separator, dir))
            },
        }
    }
}

/// Declared status and live handles always agree: in every well-formed
/// manager a stopped server has no live handle and a running one has one.
pub proof fn lemma_status_agrees(m: &ServerManager)
    requires
        m.wf(),
    ensures
        status_agrees(m.records(), m.handles()),
{
}

/// Start, then read back: a server that is not running, once `start_server`
/// has issued the start at `now` and `mark_started` has registered its
/// process, reads back as Running with that start time and a live handle whose
/// input is ready. (A running server refuses the start: see `start_server`.)
pub proof fn lemma_start_then_get(
    records: Map<Seq<char>, ServerInfo>,
    handles: Map<Seq<char>, bool>,
    id: Seq<char>,
    now: u64,
)
    requires
        records.contains_key(id),
        records[id].status != ServerStatus::Running,
    ensures
        ({
            let issued = records.insert(id, starting_record(records[id], now));
            let started = issued.insert(id, (ServerInfo { status: ServerStatus::Running, ..issued[id] }));
            let live = handles.insert(id, true);
            &&& started.contains_key(id)
            &&& started[id].status == ServerStatus::Running
            &&& started[id].last_start_time == Some(now)
            &&& live.contains_key(id) && live[id]
            &&& started.remove(id) == records.remove(id)
        }),
{
    let issued = records.insert(id, starting_record(records[id], now));
    let started = issued.insert(id, (ServerInfo { status: ServerStatus::Running, ..issued[id] }));
    assert(started.remove(id) =~= records.remove(id));
}

/// Stopping twice: after `stop_server` and `finish_stop` have stopped a
/// running or starting server, it is Stopped with no start time and no
/// handle, and a second `stop_server` has nothing to do, so the end state is
/// the same.
pub proof fn lemma_stop_idempotent(
    records: Map<Seq<char>, ServerInfo>,
    handles: Map<Seq<char>, bool>,
    id: Seq<char>,
)
    requires
        records.contains_key(id),
        stop_needed(records[id].status),
    ensures
        ({
            let stopping = records.insert(id, (ServerInfo { status: ServerStatus::Stopping, ..records[id] }));
            let stopped = stopping.insert(id, stopped_record(stopping[id]));
            let no_handle = handles.remove(id);
            &&& stopped[id] == stopped_record(records[id])
            &&& stopped[id].status == ServerStatus::Stopped
            &&& !no_handle.contains_key(id)
            &&& !stop_needed(stopped[id].status)
            &&& stopped.insert(id, stopped_record(stopped[id])) == stopped
            &&& no_handle.remove(id) == no_handle
        }),
{
    let stopping = records.insert(id, (ServerInfo { status: ServerStatus::Stopping, ..records[id] }));
    let stopped = stopping.insert(id, stopped_record(stopping[id]));
    assert(stopped.insert(id, stopped_record(stopped[id])) =~= stopped);
    assert(handles.remove(id).remove(id) =~= handles.remove(id));
}

/// Persist, then reload: loading the records that `get_servers` lists into an
/// empty registry gives back the same records, field for field, when every
/// record is stopped and has no process id (loading forces exactly that).
pub proof fn lemma_round_trip(snapshot: Seq<ServerInfo>)
    requires
        unique_keys(snapshot, record_key()),
        forall|i: int|
            0 <= i < snapshot.len() ==> (#[trigger] snapshot[i]).status == ServerStatus::Stopped
                && snapshot[i].pid is None,
    ensures
        merged(Map::empty(), Map::empty(), snapshot) == keyed_map(snapshot, record_key()),
    decreases snapshot.len(),
{
    if snapshot.len() == 0 {
        assert(keyed_map(snapshot, record_key()) =~= Map::<Seq<char>, ServerInfo>::empty());
    } else {
        let init = snapshot.drop_last();
        let last = snapshot.last();
        assert(unique_keys(init, record_key())) by {
            assert forall|i: int, j: int|
                0 <= i < init.len() && 0 <= j < init.len() && #[trigger] record_key()(init[i])
                    == #[trigger] record_key()(init[j]) implies i == j by {
                assert(init[i] == snapshot[i]);
                assert(init[j] == snapshot[j]);
            }
        }
        assert forall|i: int| 0 <= i < init.len() implies (#[trigger] init[i]).status
            == ServerStatus::Stopped && init[i].pid is None by {
            assert(init[i] == snapshot[i]);
        }
        lemma_round_trip(init);
        assert(!keyed_map(init, record_key()).contains_key(last.id@)) by {
            if keyed_map(init, record_key()).contains_key(last.id@) {
                let i = choose|i: int| 0 <= i < init.len() && #[trigger] record_key()(init[i]) == last.id@;
                assert(snapshot[i] == init[i]);
                assert(record_key()(snapshot[i]) == record_key()(snapshot[snapshot.len() - 1]));
            }
        }
        lemma_keyed_push(init, record_key(), last);
        assert(init.push(last) =~= snapshot);
        assert(reloaded_record(last) == last);
    }
}

} // verus!
