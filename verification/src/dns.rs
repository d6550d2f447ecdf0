//! The DNS server core: the tiered resolution engine over the cache and the
//! static table, the operator-command state machine, and the worker-handle
//! registry that the shutdown protocol drains.

use vstd::prelude::*;
use vstd::hash_map::StringHashMap;
use crate::cache::{Cache, CacheModel, live, spec_put, spec_get_after, spec_get_result};
use crate::utils::{clean_io, spec_cleaned};

verus! {

/// The kind of a long-lived worker task.
#[derive(Clone, Copy, Debug, PartialEq, Eq, Structural)]
pub enum HandleType {
    ProcessingRequest,
    ProcessingCommand,
}

/// One registered worker: its kind, whether the supervisor has already
/// announced waiting for it, and the caller's identifier for the underlying
/// task.
#[derive(Clone, Copy, Debug, PartialEq, Eq, Structural)]
pub struct HandleRecord {
    pub handle_type: HandleType,
    pub logged: bool,
    pub handle_id: usize,
}

/// An operator command, as parsed from one cleaned input line.
#[derive(Clone, Copy, Debug, PartialEq, Eq, Structural)]
pub enum Command {
    Stop,
    Start,
    Exit,
    Listen,
    Empty,
    Unknown,
}

/// What the caller of `processing_command` must do next.
#[derive(Clone, Copy, Debug, PartialEq, Eq, Structural)]
pub enum CommandAction {
    NoAction,
    SpawnRequestWorker,
}

/// The command denoted by a cleaned input line.
pub open spec fn spec_parse_command(s: Seq<char>) -> Command {
    if s == "stop"@ {
        Command::Stop
    } else if s == "start"@ {
        Command::Start
    } else if s == "exit"@ {
        Command::Exit
    } else if s == "listen"@ {
        Command::Listen
    } else if s.len() == 0 {
        Command::Empty
    } else {
        Command::Unknown
    }
}

/// Parses one raw operator input line: the line is cleaned of whitespace and
/// non-printable characters, then matched against the known commands.
pub fn parse_command(input: &str) -> (r: Command)
    ensures
        r == spec_parse_command(spec_cleaned(input@)),
{
    let cleaned = clean_io(input);
    let c = cleaned.as_str();
    if c.eq("stop") {
        Command::Stop
    } else if c.eq("start") {
        Command::Start
    } else if c.eq("exit") {
        Command::Exit
    } else if c.eq("listen") {
        Command::Listen
    } else if c.is_empty() {
        proof {
            assert(c@ =~= Seq::<char>::empty());
            assert(cleaned@.len() == 0);
        }
        Command::Empty
    } else {
        Command::Unknown
    }
}

/// The control flags after one command is applied. The pair is
/// `(stop_request, exited)`: `stop_request` set means the server is idle,
/// `exited` set is terminal — no later command changes anything.
pub open spec fn spec_control_after(
    stop0: bool,
    exit0: bool,
    cmd: Command,
    has_request_worker: bool,
) -> (bool, bool) {
    if exit0 {
        (stop0, exit0)
    } else {
        match cmd {
            Command::Stop => (true, exit0),
            Command::Start => (false, exit0),
            Command::Exit => (stop0, true),
            Command::Listen => if has_request_worker {
                (false, exit0)
            } else {
                (stop0, exit0)
            },
            Command::Empty => (stop0, exit0),
            Command::Unknown => (stop0, exit0),
        }
    }
}

/// The side effect one command asks of the caller: `listen` with no request
/// worker registered asks for one to be spawned; nothing else does.
pub open spec fn spec_command_action(
    exit0: bool,
    cmd: Command,
    has_request_worker: bool,
) -> CommandAction {
    if !exit0 && cmd == Command::Listen && !has_request_worker {
        CommandAction::SpawnRequestWorker
    } else {
        CommandAction::NoAction
    }
}

/// Whether the handle list holds a worker of the given kind.
pub open spec fn spec_has_handle(s: Seq<HandleRecord>, t: HandleType) -> bool {
    exists|i: int| 0 <= i < s.len() && (#[trigger] s[i]).handle_type == t
}

/// The `stop, start, exit` sequence from the initial state serves, idles,
/// serves again, then terminates; and `exited` is terminal: any command
/// issued after `exit` leaves the state unchanged.
pub proof fn lemma_control_state_machine(cmd: Command, has_request_worker: bool)
    ensures
        ({
            let s1 = spec_control_after(false, false, Command::Stop, has_request_worker);
            let s2 = spec_control_after(s1.0, s1.1, Command::Start, has_request_worker);
            let s3 = spec_control_after(s2.0, s2.1, Command::Exit, has_request_worker);
            &&& s1 == (true, false)
            &&& s2 == (false, false)
            &&& s3 == (false, true)
            &&& spec_control_after(s3.0, s3.1, cmd, has_request_worker) == s3
        }),
{
}

/// `exited` moves one way only: it never reverts once set, and it is only
/// ever set by the `exit` command.
pub proof fn lemma_exit_one_way(stop0: bool, exit0: bool, cmd: Command, has_request_worker: bool)
    ensures
        exit0 ==> spec_control_after(stop0, exit0, cmd, has_request_worker).1,
        spec_control_after(stop0, false, cmd, has_request_worker).1 ==> cmd == Command::Exit,
{
}

/// One step of the tiered resolution: what the local tiers (cache, then
/// static table) answer for key `k` at instant `now`, if anything.
pub open spec fn spec_local_answer(
    c: CacheModel,
    t: Map<Seq<char>, Seq<char>>,
    k: Seq<char>,
    now: u64,
) -> Option<Seq<char>> {
    if live(c, k, now) {
        Some(c[k].0)
    } else if t.contains_key(k) {
        Some(t[k])
    } else {
        None
    }
}

/// The cache contents after the local tiers ran for key `k`: a live cache
/// hit leaves the cache untouched (the population lookup does not refresh),
/// a static-table hit is written through with expiry `e`, and a miss leaves
/// at most the eager removal of an expired entry behind.
pub open spec fn spec_local_cache_after(
    c: CacheModel,
    t: Map<Seq<char>, Seq<char>>,
    k: Seq<char>,
    now: u64,
    e: u64,
) -> CacheModel {
    if live(c, k, now) {
        c
    } else if t.contains_key(k) {
        spec_put(spec_get_after(c, k, false, now, e), k, t[k], e)
    } else {
        spec_get_after(c, k, false, now, e)
    }
}

/// The next step the resolution engine asks of its driver.
pub enum ResolveStep {
    /// The answer is final: reply with this IP string.
    Resolved(String),
    /// The local tiers missed: ask the remote resolver about this cleaned
    /// domain next.
    TryRemote(String),
    /// The remote resolver failed: ask the system resolver about this
    /// cleaned domain next.
    TrySystem(String),
}

/// The server core: the static table, the expiring cache, the identity read
/// from the configuration, the two control flags, and the worker registry.
pub struct DNSServer {
    dns_config: StringHashMap<String>,
    cache: Cache,
    name: String,
    port: u16,
    remote_addr: String,
    config_file_path: String,
    stop_request: bool,
    exit: bool,
    handles: Vec<HandleRecord>,
}

impl DNSServer {
    /// The server is well-formed when its cache is.
    pub closed spec fn wf(&self) -> bool {
        self.cache.wf()
    }

    /// The static table, as a map from domain to IP.
    pub closed spec fn spec_table(&self) -> Map<Seq<char>, Seq<char>> {
        Map::new(
            |k: Seq<char>| self.dns_config@.contains_key(k),
            |k: Seq<char>| self.dns_config@[k]@,
        )
    }

    /// The cache contents.
    pub closed spec fn spec_cache(&self) -> CacheModel {
        self.cache@
    }

    /// The cache's time-to-live, in milliseconds.
    pub closed spec fn spec_ttl_ms(&self) -> u64 {
        self.cache.spec_ttl_ms()
    }

    /// Whether request handling is paused.
    pub closed spec fn spec_stop_request(&self) -> bool {
        self.stop_request
    }

    /// Whether the terminal exit flag is set.
    pub closed spec fn spec_exited(&self) -> bool {
        self.exit
    }

    /// The registered worker handles, in registration order.
    pub closed spec fn spec_handles(&self) -> Seq<HandleRecord> {
        self.handles@
    }

    /// Whether the cache's sweeper is still asked to run.
    pub closed spec fn spec_cache_running(&self) -> bool {
        self.cache.spec_running()
    }

    /// The server's configured name.
    pub closed spec fn spec_name(&self) -> Seq<char> {
        self.name@
    }

    /// The port the server listens on.
    pub closed spec fn spec_port(&self) -> u16 {
        self.port
    }

    /// The remote resolver address the configuration named.
    pub closed spec fn spec_remote_addr(&self) -> Seq<char> {
        self.remote_addr@
    }

    /// The path the configuration was loaded from.
    pub closed spec fn spec_config_file_path(&self) -> Seq<char> {
        self.config_file_path@
    }

    /// Everything except the cache and the return value is unchanged.
    pub open spec fn only_cache_changed(pre: &DNSServer, post: &DNSServer) -> bool {
        &&& post.spec_table() == pre.spec_table()
        &&& post.spec_ttl_ms() == pre.spec_ttl_ms()
        &&& post.spec_stop_request() == pre.spec_stop_request()
        &&& post.spec_exited() == pre.spec_exited()
        &&& post.spec_handles() == pre.spec_handles()
        &&& post.spec_name() == pre.spec_name()
        &&& post.spec_port() == pre.spec_port()
        &&& post.spec_remote_addr() == pre.spec_remote_addr()
        &&& post.spec_config_file_path() == pre.spec_config_file_path()
    }

    /// Builds a server from already-validated configuration values: its
    /// name, ports and addresses, the cache time-to-live in seconds, and the
    /// static domain-to-IP records, later records winning on a repeated
    /// domain.
    pub fn new(
        name: String,
        port: u16,
        remote_addr: String,
        config_file_path: String,
        cache_time_seconds: u64,
        static_records: Vec<(String, String)>,
    ) -> (r: DNSServer)
        requires
            cache_time_seconds <= u64::MAX / 1000,
        ensures
            r.wf(),
            r.spec_cache() == Map::<Seq<char>, (Seq<char>, u64)>::empty(),
            r.spec_ttl_ms() == cache_time_seconds * 1000,
            !r.spec_stop_request(),
            !r.spec_exited(),
            r.spec_handles() == Seq::<HandleRecord>::empty(),
            r.spec_name() == name@,
            r.spec_port() == port,
            r.spec_remote_addr() == remote_addr@,
            r.spec_config_file_path() == config_file_path@,
            r.spec_table() == spec_table_of(static_records@),
    {
        let n = static_records.len();
        let mut dns_config: StringHashMap<String> = StringHashMap::new();
        let mut i: usize = 0;
        proof {
            assert(static_records@.take(0) =~= Seq::<(String, String)>::empty());
            assert(Map::new(
                |k: Seq<char>| dns_config@.contains_key(k),
                |k: Seq<char>| dns_config@[k]@,
            ) =~= spec_table_of(static_records@.take(0)));
        }
        while i < n
            invariant
                i <= n,
                n == static_records@.len(),
                Map::new(
                    |k: Seq<char>| dns_config@.contains_key(k),
                    |k: Seq<char>| dns_config@[k]@,
                ) == spec_table_of(static_records@.take(i as int)),
            decreases n - i,
        {
            let domain = static_records[i].0.clone();
            let ip = static_records[i].1.clone();
            dns_config.insert(domain, ip);
            proof {
                assert(static_records@.take(i + 1).drop_last() =~= static_records@.take(i as int));
                assert(static_records@.take(i + 1).last() == static_records@[i as int]);
                assert(Map::new(
                    |k: Seq<char>| dns_config@.contains_key(k),
                    |k: Seq<char>| dns_config@[k]@,
                ) =~= spec_table_of(static_records@.take(i + 1)));
            }
            i += 1;
        }
        proof {
            assert(static_records@.take(n as int) =~= static_records@);
        }
        DNSServer {
            dns_config,
            cache: Cache::new(cache_time_seconds),
            name,
            port,
            remote_addr,
            config_file_path,
            stop_request: false,
            exit: false,
            handles: Vec::new(),
        }
    }

    /// The server's configured name.
    pub fn get_name(&self) -> (r: &str)
        ensures
            r@ == self.spec_name(),
    {
        self.name.as_str()
    }

    /// The port the server listens on.
    pub fn get_port(&self) -> (r: u16)
        ensures
            r == self.spec_port(),
    {
        self.port
    }

    /// The remote resolver address the configuration named.
    pub fn get_remote_addr(&self) -> (r: &str)
        ensures
            r@ == self.spec_remote_addr(),
    {
        self.remote_addr.as_str()
    }

    /// The path the configuration was loaded from.
    pub fn get_config_file_path(&self) -> (r: &str)
        ensures
            r@ == self.spec_config_file_path(),
    {
        self.config_file_path.as_str()
    }

    /// Pauses request handling.
    pub fn stop(&mut self)
        ensures
            old(self).wf() ==> final(self).wf(),
            final(self).spec_stop_request(),
            final(self).spec_exited() == old(self).spec_exited(),
            final(self).spec_cache() == old(self).spec_cache(),
            final(self).spec_table() == old(self).spec_table(),
            final(self).spec_ttl_ms() == old(self).spec_ttl_ms(),
            final(self).spec_handles() == old(self).spec_handles(),
            final(self).spec_name() == old(self).spec_name(),
    {
        self.stop_request = true;
    }

    /// Resumes request handling.
    pub fn start(&mut self)
        ensures
            old(self).wf() ==> final(self).wf(),
            !final(self).spec_stop_request(),
            final(self).spec_exited() == old(self).spec_exited(),
            final(self).spec_cache() == old(self).spec_cache(),
            final(self).spec_table() == old(self).spec_table(),
            final(self).spec_ttl_ms() == old(self).spec_ttl_ms(),
            final(self).spec_handles() == old(self).spec_handles(),
            final(self).spec_name() == old(self).spec_name(),
    {
        self.stop_request = false;
    }

    /// Sets the terminal exit flag; every worker loop observes it and stops.
    pub fn exit(&mut self)
        ensures
            old(self).wf() ==> final(self).wf(),
            final(self).spec_exited(),
            final(self).spec_stop_request() == old(self).spec_stop_request(),
            final(self).spec_cache() == old(self).spec_cache(),
            final(self).spec_table() == old(self).spec_table(),
            final(self).spec_ttl_ms() == old(self).spec_ttl_ms(),
            final(self).spec_handles() == old(self).spec_handles(),
            final(self).spec_name() == old(self).spec_name(),
    {
        self.exit = true;
    }

    /// Whether the terminal exit flag is set.
    pub fn is_exited(&self) -> (r: bool)
        ensures
            r == self.spec_exited(),
    {
        self.exit
    }

    /// Whether request handling is currently active.
    pub fn is_accepting(&self) -> (r: bool)
        ensures
            r == !self.spec_stop_request(),
    {
        !self.stop_request
    }

    /// Registers a spawned worker's handle.
    pub fn add_handle_record(&mut self, handle_record: HandleRecord)
        ensures
            old(self).wf() ==> final(self).wf(),
            final(self).spec_handles() == old(self).spec_handles().push(handle_record),
            final(self).spec_stop_request() == old(self).spec_stop_request(),
            final(self).spec_exited() == old(self).spec_exited(),
            final(self).spec_cache() == old(self).spec_cache(),
            final(self).spec_table() == old(self).spec_table(),
            final(self).spec_ttl_ms() == old(self).spec_ttl_ms(),
            final(self).spec_name() == old(self).spec_name(),
    {
        self.handles.push(handle_record);
    }

    /// Whether a worker of the given kind is registered.
    pub fn has_handle_of(&self, handle_type: HandleType) -> (r: bool)
        ensures
            r == spec_has_handle(self.spec_handles(), handle_type),
    {
        let mut i: usize = 0;
        while i < self.handles.len()
            invariant
                i <= self.handles@.len(),
                forall|j: int| 0 <= j < i ==> (#[trigger] self.handles@[j]).handle_type != handle_type,
            decreases self.handles@.len() - i,
        {
            if self.handles[i].handle_type == handle_type {
                return true;
            }
            i += 1;
        }
        false
    }

    /// Applies one raw operator input line to the control state: the line is
    /// cleaned and parsed, then drives the `(stop_request, exited)` state
    /// machine; `exited` is terminal. The returned action tells the caller
    /// whether a new request worker must be spawned (the `listen` command
    /// with none registered).
    pub fn processing_command(&mut self, input: &str) -> (r: CommandAction)
        ensures
            old(self).wf() ==> final(self).wf(),
            ({
                let cmd = spec_parse_command(spec_cleaned(input@));
                let has_req = spec_has_handle(
                    old(self).spec_handles(),
                    HandleType::ProcessingRequest,
                );
                let s = spec_control_after(
                    old(self).spec_stop_request(),
                    old(self).spec_exited(),
                    cmd,
                    has_req,
                );
                &&& final(self).spec_stop_request() == s.0
                &&& final(self).spec_exited() == s.1
                &&& r == spec_command_action(old(self).spec_exited(), cmd, has_req)
            }),
            final(self).spec_cache() == old(self).spec_cache(),
            final(self).spec_table() == old(self).spec_table(),
            final(self).spec_ttl_ms() == old(self).spec_ttl_ms(),
            final(self).spec_handles() == old(self).spec_handles(),
            final(self).spec_name() == old(self).spec_name(),
    {
        let cmd = parse_command(input);
        if self.is_exited() {
            return CommandAction::NoAction;
        }
        match cmd {
            Command::Stop => {
                self.stop();
                CommandAction::NoAction
            },
            Command::Start => {
                self.start();
                CommandAction::NoAction
            },
            Command::Exit => {
                self.exit();
                CommandAction::NoAction
            },
            Command::Listen => {
                if self.has_handle_of(HandleType::ProcessingRequest) {
                    self.start();
                    CommandAction::NoAction
                } else {
                    CommandAction::SpawnRequestWorker
                }
            },
            Command::Empty => CommandAction::NoAction,
            Command::Unknown => CommandAction::NoAction,
        }
    }

    /// Runs the local tiers for one query: the raw domain is cleaned, the
    /// cache is consulted without refreshing, then the static table; a
    /// static-table hit is written through to the cache. On a miss the
    /// cleaned domain is handed back for the remote tier.
    pub fn resolve_local(&mut self, domain: &str, now_ms: u64) -> (r: ResolveStep)
        requires
            old(self).wf(),
            now_ms + old(self).spec_ttl_ms() <= u64::MAX,
        ensures
            final(self).wf(),
            Self::only_cache_changed(old(self), final(self)),
            ({
                let k = spec_cleaned(domain@);
                let c = old(self).spec_cache();
                let t = old(self).spec_table();
                let e = (now_ms + old(self).spec_ttl_ms()) as u64;
                &&& final(self).spec_cache() == spec_local_cache_after(c, t, k, now_ms, e)
                &&& (match r {
                    ResolveStep::Resolved(ip) => spec_local_answer(c, t, k, now_ms) == Some(ip@),
                    ResolveStep::TryRemote(d) => spec_local_answer(c, t, k, now_ms) is None && d@
                        == k,
                    ResolveStep::TrySystem(_) => false,
                })
                &&& (r is Resolved <==> spec_local_answer(c, t, k, now_ms) is Some)
            }),
    {
        let cleaned = clean_io(domain);
        match self.cache.get(cleaned.as_str(), false, now_ms) {
            Some(ip) => ResolveStep::Resolved(ip),
            None => {
                let table_hit = match self.dns_config.get(cleaned.as_str()) {
                    Some(ip_ref) => Some(ip_ref.clone()),
                    None => None,
                };
                match table_hit {
                    Some(ip) => {
                        self.cache.put(cleaned, ip.clone(), now_ms);
                        ResolveStep::Resolved(ip)
                    },
                    None => ResolveStep::TryRemote(cleaned),
                }
            },
        }
    }

    /// Takes the remote resolver's outcome for a cleaned domain: an answer
    /// is written through to the cache and returned as final; a failure
    /// leaves the cache untouched and hands the domain on to the system
    /// tier. No failure is ever cached.
    pub fn absorb_remote(&mut self, cleaned: String, remote_ip: Option<String>, now_ms: u64) -> (r:
        ResolveStep)
        requires
            old(self).wf(),
            now_ms + old(self).spec_ttl_ms() <= u64::MAX,
        ensures
            final(self).wf(),
            Self::only_cache_changed(old(self), final(self)),
            ({
                let e = (now_ms + old(self).spec_ttl_ms()) as u64;
                match remote_ip {
                    Some(ip) => final(self).spec_cache() == spec_put(
                        old(self).spec_cache(),
                        cleaned@,
                        ip@,
                        e,
                    ) && (r matches ResolveStep::Resolved(out) && out@ == ip@),
                    None => final(self).spec_cache() == old(self).spec_cache() && (
                    r matches ResolveStep::TrySystem(d) && d@ == cleaned@),
                }
            }),
    {
        match remote_ip {
            Some(ip) => {
                self.cache.put(cleaned, ip.clone(), now_ms);
                ResolveStep::Resolved(ip)
            },
            None => ResolveStep::TrySystem(cleaned),
        }
    }

    /// Takes the system resolver's outcome for a cleaned domain: an answer
    /// is written through to the cache and returned; a failure yields the
    /// empty string — the engine's sole failure signal — and leaves the
    /// cache untouched, so nothing negative is ever cached.
    pub fn absorb_system(&mut self, cleaned: String, system_ip: Option<String>, now_ms: u64) -> (r:
        String)
        requires
            old(self).wf(),
            now_ms + old(self).spec_ttl_ms() <= u64::MAX,
        ensures
            final(self).wf(),
            Self::only_cache_changed(old(self), final(self)),
            ({
                let e = (now_ms + old(self).spec_ttl_ms()) as u64;
                match system_ip {
                    Some(ip) => final(self).spec_cache() == spec_put(
                        old(self).spec_cache(),
                        cleaned@,
                        ip@,
                        e,
                    ) && r@ == ip@,
                    None => final(self).spec_cache() == old(self).spec_cache() && r@ == Seq::<
                        char,
                    >::empty(),
                }
            }),
    {
        match system_ip {
            Some(ip) => {
                self.cache.put(cleaned, ip.clone(), now_ms);
                ip
            },
            None => String::new(),
        }
    }

    /// Looks a key up in the cache directly, without refreshing; the
    /// supervisor and tests use this to observe the cache through the
    /// server.
    pub fn cache_lookup(&mut self, key: &str, now_ms: u64) -> (r: Option<String>)
        requires
            old(self).wf(),
            now_ms + old(self).spec_ttl_ms() <= u64::MAX,
        ensures
            final(self).wf(),
            Self::only_cache_changed(old(self), final(self)),
            r is Some <==> live(old(self).spec_cache(), key@, now_ms),
            (r matches Some(v) ==> Some(v@) == spec_get_result(
                old(self).spec_cache(),
                key@,
                now_ms,
            )),
            final(self).spec_cache() == spec_get_after(
                old(self).spec_cache(),
                key@,
                false,
                now_ms,
                (now_ms + old(self).spec_ttl_ms()) as u64,
            ),
    {
        self.cache.get(key, false, now_ms)
    }

    /// Sweeps the cache: removes every entry no longer visible at `now_ms`.
    /// The external sweeper loop calls this once per interval.
    pub fn sweep_cache(&mut self, now_ms: u64)
        requires
            old(self).wf(),
        ensures
            final(self).wf(),
            Self::only_cache_changed(old(self), final(self)),
            final(self).spec_cache() == crate::cache::spec_swept(old(self).spec_cache(), now_ms),
    {
        self.cache.sweep(now_ms);
    }

    /// Whether the cache's sweeper is still asked to run.
    pub fn cache_is_running(&self) -> (r: bool)
        ensures
            r == self.spec_cache_running(),
    {
        self.cache.is_running()
    }

    /// Signals the cache's sweeper loop to stop on its next wake-up.
    pub fn shut_down_cache(&mut self)
        ensures
            old(self).wf() ==> final(self).wf(),
            Self::only_cache_changed(old(self), final(self)),
            final(self).spec_cache() == old(self).spec_cache(),
            !final(self).spec_cache_running(),
    {
        self.cache.shut_down();
    }

    /// The cache's time-to-live, in milliseconds; callers use it to guard
    /// the time arithmetic of the resolution entry points.
    pub fn get_cache_expiration_time(&self) -> (r: u64)
        ensures
            r == self.spec_ttl_ms(),
    {
        self.cache.get_expiration_time()
    }

    /// The number of cache entries currently stored.
    pub fn cache_record_num(&self) -> (r: usize)
        requires
            self.wf(),
        ensures
            r == self.spec_cache().len(),
    {
        self.cache.get_record_num()
    }

    /// Marks every registered handle as waited-on, returning the kinds of
    /// the handles that had not been announced yet, in registration order:
    /// the supervisor logs one wait line per handle, once.
    pub fn mark_handles_waiting(&mut self) -> (r: Vec<HandleType>)
        ensures
            old(self).wf() ==> final(self).wf(),
            final(self).spec_handles().len() == old(self).spec_handles().len(),
            forall|i: int|
                0 <= i < final(self).spec_handles().len() ==> (#[trigger] final(self).spec_handles()[i])
                    == (HandleRecord { logged: true, ..old(self).spec_handles()[i] }),
            r@ == old(self).spec_handles().filter(|h: HandleRecord| !h.logged).map_values(
                |h: HandleRecord| h.handle_type,
            ),
            final(self).spec_stop_request() == old(self).spec_stop_request(),
            final(self).spec_exited() == old(self).spec_exited(),
            final(self).spec_cache() == old(self).spec_cache(),
            final(self).spec_table() == old(self).spec_table(),
            final(self).spec_ttl_ms() == old(self).spec_ttl_ms(),
            final(self).spec_name() == old(self).spec_name(),
    {
        let ghost h0 = self.handles@;
        let mut newly: Vec<HandleType> = Vec::new();
        let mut i: usize = 0;
        proof {
            assert(h0.take(0) =~= Seq::<HandleRecord>::empty());
            reveal(Seq::filter);
            assert(newly@ =~= h0.take(0).filter(|h: HandleRecord| !h.logged).map_values(
                |h: HandleRecord| h.handle_type,
            ));
        }
        while i < self.handles.len()
            invariant
                i <= self.handles@.len(),
                self.handles@.len() == h0.len(),
                self.dns_config == old(self).dns_config,
                self.cache == old(self).cache,
                self.name == old(self).name,
                self.port == old(self).port,
                self.remote_addr == old(self).remote_addr,
                self.config_file_path == old(self).config_file_path,
                self.stop_request == old(self).stop_request,
                self.exit == old(self).exit,
                forall|j: int|
                    0 <= j < i ==> (#[trigger] self.handles@[j]) == (HandleRecord {
                        logged: true,
                        ..h0[j]
                    }),
                forall|j: int| i <= j < h0.len() ==> (#[trigger] self.handles@[j]) == h0[j],
                newly@ == h0.take(i as int).filter(|h: HandleRecord| !h.logged).map_values(
                    |h: HandleRecord| h.handle_type,
                ),
            decreases self.handles@.len() - i,
        {
            let rec = self.handles[i];
            if !rec.logged {
                newly.push(rec.handle_type);
            }
            self.handles.set(
                i,
                HandleRecord { handle_type: rec.handle_type, logged: true, handle_id: rec.handle_id },
            );
            proof {
                reveal(Seq::filter);
                let pred = |h: HandleRecord| !h.logged;
                assert(h0.take(i + 1).drop_last() =~= h0.take(i as int));
                assert(h0.take(i + 1).last() == h0[i as int]);
                if pred(h0[i as int]) {
                    assert(h0.take(i + 1).filter(pred) == h0.take(i as int).filter(pred).push(
                        h0[i as int],
                    ));
                    assert(newly@ =~= h0.take(i + 1).filter(pred).map_values(
                        |h: HandleRecord| h.handle_type,
                    ));
                } else {
                    assert(h0.take(i + 1).filter(pred) == h0.take(i as int).filter(pred));
                }
            }
            i += 1;
        }
        proof {
            assert(h0.take(h0.len() as int) =~= h0);
        }
        newly
    }

    /// Empties the worker registry, handing every record back in
    /// registration order: once `exited` is observed, the supervisor drains
    /// the registry and then joins each task.
    pub fn drain_handles(&mut self) -> (r: Vec<HandleRecord>)
        requires
            old(self).spec_exited(),
        ensures
            old(self).wf() ==> final(self).wf(),
            r@ == old(self).spec_handles(),
            final(self).spec_handles() == Seq::<HandleRecord>::empty(),
            final(self).spec_stop_request() == old(self).spec_stop_request(),
            final(self).spec_exited() == old(self).spec_exited(),
            final(self).spec_cache() == old(self).spec_cache(),
            final(self).spec_table() == old(self).spec_table(),
            final(self).spec_ttl_ms() == old(self).spec_ttl_ms(),
            final(self).spec_name() == old(self).spec_name(),
    {
        let mut drained: Vec<HandleRecord> = Vec::new();
        let mut i: usize = 0;
        while i < self.handles.len()
            invariant
                i <= self.handles@.len(),
                self.handles@ == old(self).handles@,
                drained@ == self.handles@.take(i as int),
            decreases self.handles@.len() - i,
        {
            drained.push(self.handles[i]);
            proof {
                assert(drained@ =~= self.handles@.take(i + 1));
            }
            i += 1;
        }
        proof {
            assert(self.handles@.take(self.handles@.len() as int) =~= self.handles@);
        }
        self.handles = Vec::new();
        drained
    }
}

/// Tier precedence: a live cache entry answers the query, whatever the
/// static table holds for the same key.
pub proof fn lemma_tier_precedence(
    c: CacheModel,
    t: Map<Seq<char>, Seq<char>>,
    k: Seq<char>,
    now: u64,
)
    requires
        live(c, k, now),
    ensures
        spec_local_answer(c, t, k, now) == Some(c[k].0),
{
}

/// Write-through: when the cache misses and the static table answers, the
/// answer is the table's value and the cache afterwards holds that value
/// under the queried key, expiring at `e`.
pub proof fn lemma_write_through(
    c: CacheModel,
    t: Map<Seq<char>, Seq<char>>,
    k: Seq<char>,
    now: u64,
    e: u64,
)
    requires
        !live(c, k, now),
        t.contains_key(k),
    ensures
        spec_local_answer(c, t, k, now) == Some(t[k]),
        spec_local_cache_after(c, t, k, now, e).contains_key(k),
        spec_local_cache_after(c, t, k, now, e)[k] == (t[k], e),
{
}

/// No negative caching: when every tier misses, the failed resolution
/// leaves no cache entry for the key, so a later query finds no local
/// answer either and must walk the full tier chain again.
pub proof fn lemma_no_negative_caching(
    c: CacheModel,
    t: Map<Seq<char>, Seq<char>>,
    k: Seq<char>,
    now: u64,
    e: u64,
    later: u64,
)
    requires
        spec_local_answer(c, t, k, now) is None,
    ensures
        !spec_local_cache_after(c, t, k, now, e).contains_key(k),
        spec_local_answer(spec_local_cache_after(c, t, k, now, e), t, k, later) is None,
{
}

/// The static table denoted by a record list: domain to IP, a later record
/// winning on a repeated domain.
pub open spec fn spec_table_of(records: Seq<(String, String)>) -> Map<Seq<char>, Seq<char>>
    decreases records.len(),
{
    if records.len() == 0 {
        Map::empty()
    } else {
        spec_table_of(records.drop_last()).insert(records.last().0@, records.last().1@)
    }
}

} // verus!
