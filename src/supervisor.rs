use vstd::prelude::*;
use vstd::string::*;
use crate::task::{opt_view, strings_view};
use crate::text::{decimal, decimal_string};

verus! {

/// Port the worker listens on by default.
pub const DEFAULT_RPC_PORT: u16 = 6800;

/// How far above the preferred port the search for a free one goes.
pub const PORT_SEARCH_SPAN: u16 = 100;

/// Pause before the worker is started again, in seconds.
pub const RESTART_BACKOFF_SECS: u64 = 5;

/// Lines of worker output kept for the log view.
pub const RECENT_LOG_LINES: usize = 100;

/// Lines of worker error output kept for a crash report.
pub const STDERR_TAIL_LINES: usize = 20;

/// Where the worker listens and the secret it wants.
pub struct ConnectionParams {
    pub port: u16,
    pub secret: Option<String>,
}

impl ConnectionParams {
    pub fn new() -> (r: ConnectionParams)
        ensures
            r.port == DEFAULT_RPC_PORT,
            r.secret is None,
    {
        ConnectionParams { port: DEFAULT_RPC_PORT, secret: None }
    }

    /// The first positional parameter of every call: `token:<secret>`, if there is a secret.
    pub fn token_param(&self) -> (r: Option<String>)
        ensures
            opt_view(r) == match self.secret {
                Some(s) => Some("token:"@ + s@),
                None => None,
            },
    {
        proof {
            reveal_strlit("token:");
        }
        match &self.secret {
            Some(s) => {
                let mut t = String::from_str("token:");
                t.append(s.as_str());
                Some(t)
            },
            None => None,
        }
    }
}

/// Publishes the port of the worker.
pub fn set_aria2_port(cell: &mut ConnectionParams, port: u16)
    ensures
        final(cell).port == port,
        opt_view(final(cell).secret) == opt_view(old(cell).secret),
{
    cell.port = port;
}

/// Publishes the secret of the worker.
pub fn set_aria2_secret(cell: &mut ConnectionParams, secret: String)
    ensures
        final(cell).port == old(cell).port,
        opt_view(final(cell).secret) == Some(secret@),
{
    cell.secret = Some(secret);
}

pub fn get_aria2_port(cell: &ConnectionParams) -> (r: u16)
    ensures
        r == cell.port,
{
    cell.port
}

/// Set once the application is closing: the supervisor then stops instead of restarting.
pub struct ShutdownState {
    pub requested: bool,
}

impl ShutdownState {
    pub fn new() -> (r: ShutdownState)
        ensures
            !r.requested,
    {
        ShutdownState { requested: false }
    }

    pub fn request(&mut self)
        ensures
            final(self).requested,
    {
        self.requested = true;
    }

    pub fn is_requested(&self) -> (r: bool)
        ensures
            r == self.requested,
    {
        self.requested
    }
}

/// Whether worker output goes to live subscribers too.
pub struct LogStreamEnabled {
    pub enabled: bool,
}

impl LogStreamEnabled {
    pub fn new() -> (r: LogStreamEnabled)
        ensures
            !r.enabled,
    {
        LogStreamEnabled { enabled: false }
    }

    pub fn set(&mut self, on: bool)
        ensures
            final(self).enabled == on,
    {
        self.enabled = on;
    }
}

/// The port to probe after `port` was found busy, searching upward from `start`.
pub fn next_port(start: u16, port: u16) -> (r: Option<u16>)
    ensures
        r == if port + 1 <= start + PORT_SEARCH_SPAN && port + 1 <= u16::MAX {
            Some((port + 1) as u16)
        } else {
            None
        },
{
    if port < u16::MAX && (port as u32) + 1 <= (start as u32) + (PORT_SEARCH_SPAN as u32) {
        Some(port + 1)
    } else {
        None
    }
}

/// The settings that shape the worker's command line; numbers that the settings file
/// holds as decimals come as text.
pub struct WorkerConfig {
    pub max_concurrent_downloads: u32,
    pub enable_dht: bool,
    pub enable_peer_exchange: bool,
    pub enable_seeding: bool,
    pub seed_ratio: String,
    pub dht_listen_port: String,
    pub listen_port: String,
    pub global_max_upload_limit: String,
    pub bt_trackers: String,
    pub rpc_secret: Option<String>,
    pub save_session_interval: u64,
}

pub open spec fn bool_word(b: bool) -> Seq<char> {
    if b {
        "true"@
    } else {
        "false"@
    }
}

pub open spec fn push_if(s: Seq<Seq<char>>, cond: bool, a: Seq<char>) -> Seq<Seq<char>> {
    if cond {
        s.push(a)
    } else {
        s
    }
}

/// The worker's command line for listening on `port`, tied to the parent process `pid`,
/// with the optional settings file `conf` and session file `session`.
pub open spec fn worker_args(
    c: WorkerConfig,
    port: u16,
    pid: u32,
    conf: Option<Seq<char>>,
    session: Option<Seq<char>>,
) -> Seq<Seq<char>> {
    let base = seq![
        "--enable-rpc"@,
        "--rpc-listen-all=false"@,
        "--rpc-listen-port="@ + decimal(port as nat),
        "--disable-ipv6"@,
        "--log-level=warn"@,
        "--max-concurrent-downloads="@ + decimal(c.max_concurrent_downloads as nat),
        "--stop-with-process="@ + decimal(pid as nat),
        "--enable-dht="@ + bool_word(c.enable_dht),
        "--enable-peer-exchange="@ + bool_word(c.enable_peer_exchange),
        "--seed-ratio="@ + c.seed_ratio@,
        "--seed-time="@ + (if c.enable_seeding { "999999999"@ } else { "0"@ }),
        "--dht-listen-port="@ + c.dht_listen_port@,
        "--listen-port="@ + c.listen_port@,
    ];
    let a1 = push_if(base, c.global_max_upload_limit@.len() > 0, "--max-overall-upload-limit="@ + c.global_max_upload_limit@);
    let a2 = push_if(a1, c.bt_trackers@.len() > 0, "--bt-tracker="@ + c.bt_trackers@);
    let a3 = match c.rpc_secret {
        Some(s) => a2.push("--rpc-secret="@ + s@),
        None => a2,
    };
    let a4 = match conf {
        Some(p) => a3.push("--conf-path="@ + p),
        None => a3,
    };
    match session {
        Some(p) => a4.push("--input-file="@ + p).push("--save-session="@ + p).push(
            "--save-session-interval="@ + decimal(c.save_session_interval as nat),
        ),
        None => a4,
    }
}

fn flag(name: &str, value: &str) -> (r: String)
    ensures
        r@ == name@ + value@,
{
    let mut r = String::from_str(name);
    r.append(value);
    r
}

/// The worker's command line; see [`worker_args`].
pub fn build_worker_args(
    c: &WorkerConfig,
    port: u16,
    pid: u32,
    conf_path: Option<String>,
    session_path: Option<String>,
) -> (r: Vec<String>)
    ensures
        strings_view(r@) == worker_args(*c, port, pid, opt_view(conf_path), opt_view(session_path)),
{
    proof {
        reveal_strlit("--enable-rpc");
        reveal_strlit("--rpc-listen-all=false");
        reveal_strlit("--rpc-listen-port=");
        reveal_strlit("--disable-ipv6");
        reveal_strlit("--log-level=warn");
        reveal_strlit("--max-concurrent-downloads=");
        reveal_strlit("--stop-with-process=");
        reveal_strlit("--enable-dht=");
        reveal_strlit("--enable-peer-exchange=");
        reveal_strlit("--seed-ratio=");
        reveal_strlit("--seed-time=");
        reveal_strlit("999999999");
        reveal_strlit("0");
        reveal_strlit("--dht-listen-port=");
        reveal_strlit("--listen-port=");
        reveal_strlit("--max-overall-upload-limit=");
        reveal_strlit("--bt-tracker=");
        reveal_strlit("--rpc-secret=");
        reveal_strlit("--conf-path=");
        reveal_strlit("--input-file=");
        reveal_strlit("--save-session=");
        reveal_strlit("--save-session-interval=");
        reveal_strlit("true");
        reveal_strlit("false");
    }
    let dht = if c.enable_dht { "true" } else { "false" };
    let pex = if c.enable_peer_exchange { "true" } else { "false" };
    let seed_time = if c.enable_seeding { "999999999" } else { "0" };
    let mut args: Vec<String> = Vec::new();
    args.push(String::from_str("--enable-rpc"));
    args.push(String::from_str("--rpc-listen-all=false"));
    args.push(flag("--rpc-listen-port=", decimal_string(port as u64).as_str()));
    args.push(String::from_str("--disable-ipv6"));
    args.push(String::from_str("--log-level=warn"));
    args.push(flag("--max-concurrent-downloads=", decimal_string(c.max_concurrent_downloads as u64).as_str()));
    args.push(flag("--stop-with-process=", decimal_string(pid as u64).as_str()));
    args.push(flag("--enable-dht=", dht));
    args.push(flag("--enable-peer-exchange=", pex));
    args.push(flag("--seed-ratio=", c.seed_ratio.as_str()));
    args.push(flag("--seed-time=", seed_time));
    args.push(flag("--dht-listen-port=", c.dht_listen_port.as_str()));
    args.push(flag("--listen-port=", c.listen_port.as_str()));
    let ghost base = strings_view(args@);
    assert(base =~= seq![
        "--enable-rpc"@,
        "--rpc-listen-all=false"@,
        "--rpc-listen-port="@ + decimal(port as nat),
        "--disable-ipv6"@,
        "--log-level=warn"@,
        "--max-concurrent-downloads="@ + decimal(c.max_concurrent_downloads as nat),
        "--stop-with-process="@ + decimal(pid as nat),
        "--enable-dht="@ + bool_word(c.enable_dht),
        "--enable-peer-exchange="@ + bool_word(c.enable_peer_exchange),
        "--seed-ratio="@ + c.seed_ratio@,
        "--seed-time="@ + (if c.enable_seeding { "999999999"@ } else { "0"@ }),
        "--dht-listen-port="@ + c.dht_listen_port@,
        "--listen-port="@ + c.listen_port@,
    ]);
    if c.global_max_upload_limit.unicode_len() > 0 {
        let ghost before = args@;
        args.push(flag("--max-overall-upload-limit=", c.global_max_upload_limit.as_str()));
        assert(strings_view(args@) =~= strings_view(before).push("--max-overall-upload-limit="@ + c.global_max_upload_limit@));
    }
    if c.bt_trackers.unicode_len() > 0 {
        let ghost before = args@;
        args.push(flag("--bt-tracker=", c.bt_trackers.as_str()));
        assert(strings_view(args@) =~= strings_view(before).push("--bt-tracker="@ + c.bt_trackers@));
    }
    match &c.rpc_secret {
        Some(s) => {
            let ghost before = args@;
            args.push(flag("--rpc-secret=", s.as_str()));
            assert(strings_view(args@) =~= strings_view(before).push("--rpc-secret="@ + s@));
        },
        None => {},
    }
    match &conf_path {
        Some(p) => {
            let ghost before = args@;
            args.push(flag("--conf-path=", p.as_str()));
            assert(strings_view(args@) =~= strings_view(before).push("--conf-path="@ + p@));
        },
        None => {},
    }
    match &session_path {
        Some(p) => {
            let ghost before = args@;
            args.push(flag("--input-file=", p.as_str()));
            args.push(flag("--save-session=", p.as_str()));
            args.push(flag("--save-session-interval=", decimal_string(c.save_session_interval).as_str()));
            assert(strings_view(args@) =~= strings_view(before).push("--input-file="@ + p@).push(
                "--save-session="@ + p@,
            ).push("--save-session-interval="@ + decimal(c.save_session_interval as nat)));
        },
        None => {},
    }
    args
}

/// Whether a worker exit is a crash: a non-zero code, no code at all, or a signal.
pub open spec fn is_crash(code: Option<i32>, signal: Option<i32>) -> bool {
    (code matches Some(c) && c != 0) || code is None || signal is Some
}

/// What the supervisor does when the worker has exited.
#[derive(Debug, Clone, Copy, PartialEq, Eq, Structural)]
pub enum ExitAction {
    /// The application is closing: do not start the worker again.
    Stop,
    /// Start it again after `delay_secs`, first reporting a crash if `report_crash`.
    Restart { report_crash: bool, delay_secs: u64 },
}

/// The supervisor's decision when the worker exits with `code` or `signal`.
pub fn on_worker_exit(code: Option<i32>, signal: Option<i32>, shutting_down: bool) -> (r: ExitAction)
    ensures
        r == if shutting_down {
            ExitAction::Stop
        } else {
            ExitAction::Restart { report_crash: is_crash(code, signal), delay_secs: RESTART_BACKOFF_SECS }
        },
{
    if shutting_down {
        return ExitAction::Stop;
    }
    let crash = match code {
        Some(c) => c != 0,
        None => true,
    } || signal.is_some();
    ExitAction::Restart { report_crash: crash, delay_secs: RESTART_BACKOFF_SECS }
}

/// The last `cap` lines of worker output.
pub struct LogBuffer {
    pub lines: Vec<String>,
    pub cap: usize,
}

/// The last `n` items of `s`.
pub open spec fn tail(s: Seq<Seq<char>>, n: nat) -> Seq<Seq<char>> {
    if s.len() <= n {
        s
    } else {
        s.subrange(s.len() - n, s.len() as int)
    }
}

impl LogBuffer {
    pub open spec fn wf(&self) -> bool {
        self.lines@.len() <= self.cap
    }

    pub fn new(cap: usize) -> (r: LogBuffer)
        ensures
            r.wf(),
            r.cap == cap,
            r.lines@.len() == 0,
    {
        LogBuffer { lines: Vec::new(), cap }
    }

    /// Appends a line, dropping the oldest beyond the capacity.
    pub fn push(&mut self, line: String)
        requires
            old(self).wf(),
        ensures
            final(self).wf(),
            final(self).cap == old(self).cap,
            strings_view(final(self).lines@) == tail(strings_view(old(self).lines@).push(line@), old(self).cap as nat),
    {
        let ghost all = strings_view(self.lines@).push(line@);
        self.lines.push(line);
        assert(strings_view(self.lines@) =~= all);
        if self.lines.len() > self.cap {
            let ghost before = self.lines@;
            self.lines.remove(0);
            assert(strings_view(self.lines@) =~= all.subrange(all.len() - self.cap, all.len() as int));
        }
    }
}

/// Whether a user-supplied worker binary is used: asked for, present, trusted, and its
/// digest matches the trusted one; otherwise the bundled binary runs.
pub open spec fn custom_binary_allowed(
    use_custom: bool,
    present: bool,
    trusted: bool,
    trusted_hash: Option<Seq<char>>,
    actual_hash: Option<Seq<char>>,
) -> bool {
    use_custom && trusted && hash_matches(present, trusted_hash, actual_hash)
}

/// Decides between a user-supplied worker binary and the bundled one.
pub fn use_custom_binary(
    use_custom: bool,
    present: bool,
    trusted: bool,
    trusted_hash: &Option<String>,
    actual_hash: &Option<String>,
) -> (r: bool)
    ensures
        r == custom_binary_allowed(use_custom, present, trusted, opt_view(*trusted_hash), opt_view(*actual_hash)),
{
    if !use_custom || !present || !trusted {
        return false;
    }
    let r = match (trusted_hash, actual_hash) {
        (Some(a), Some(b)) => a.unicode_len() > 0 && crate::state::str_equal(a.as_str(), b.as_str()),
        _ => false,
    };
    proof {
        if r {
            assert(opt_view(*actual_hash) == opt_view(*trusted_hash));
        }
    }
    r
}

/// What the settings view shows of the worker binary in use.
#[derive(Debug, Clone)]
pub struct Aria2VersionInfo {
    pub version: String,
    pub is_custom: bool,
    pub path: String,
    pub custom_binary_exists: bool,
    pub custom_binary_version: Option<String>,
    pub custom_binary_trusted: bool,
    pub custom_binary_hash_match: bool,
    pub custom_binary_security_status: String,
}

/// The trusted digest is set, not empty, and equals the digest of the file.
pub open spec fn hash_matches(present: bool, trusted_hash: Option<Seq<char>>, actual_hash: Option<Seq<char>>) -> bool {
    present && trusted_hash is Some && trusted_hash.unwrap().len() > 0 && actual_hash == trusted_hash
}

/// The security word of a user-supplied binary.
pub open spec fn security_word(present: bool, trusted: bool, hash_ok: bool) -> Seq<char> {
    if !present {
        "missing"@
    } else if !trusted {
        "untrusted"@
    } else if !hash_ok {
        "hash_mismatch"@
    } else {
        "trusted"@
    }
}

/// Describes the binary in use. `present` tells whether a user-supplied binary answered
/// with its version `custom_version`; `actual_hash` is the digest of that file, if read.
pub fn version_info(
    use_custom: bool,
    present: bool,
    custom_version: Option<String>,
    custom_path: String,
    trusted: bool,
    trusted_hash: &Option<String>,
    actual_hash: &Option<String>,
) -> (r: Aria2VersionInfo)
    ensures
        r.custom_binary_hash_match == hash_matches(present, opt_view(*trusted_hash), opt_view(*actual_hash)),
        r.custom_binary_trusted == (trusted && r.custom_binary_hash_match),
        r.custom_binary_security_status@ == security_word(present, trusted, r.custom_binary_hash_match),
        r.is_custom == (use_custom && present && r.custom_binary_trusted),
        r.custom_binary_exists == present,
        opt_view(r.custom_binary_version) == opt_view(custom_version),
        r.is_custom ==> r.path@ == custom_path@ && r.version@ == match custom_version {
            Some(v) => v@,
            None => Seq::empty(),
        },
        !r.is_custom ==> r.path@ == "Embedded Sidecar"@ && r.version@ == "Built-in (1.36.0)"@,
{
    proof {
        reveal_strlit("missing");
        reveal_strlit("untrusted");
        reveal_strlit("hash_mismatch");
        reveal_strlit("trusted");
        reveal_strlit("Embedded Sidecar");
        reveal_strlit("Built-in (1.36.0)");
    }
    let hash_ok = present && match (trusted_hash, actual_hash) {
        (Some(e), Some(a)) => e.unicode_len() > 0 && crate::state::str_equal(e.as_str(), a.as_str()),
        _ => false,
    };
    proof {
        if hash_ok {
            assert(opt_view(*actual_hash) == opt_view(*trusted_hash));
        }
    }
    let effective = trusted && hash_ok;
    let status = if !present {
        "missing"
    } else if !trusted {
        "untrusted"
    } else if !hash_ok {
        "hash_mismatch"
    } else {
        "trusted"
    };
    let version_copy = match &custom_version {
        Some(v) => Some(v.clone()),
        None => None,
    };
    if use_custom && present && effective {
        let version = match &custom_version {
            Some(v) => v.clone(),
            None => String::new(),
        };
        Aria2VersionInfo {
            version,
            is_custom: true,
            path: custom_path,
            custom_binary_exists: true,
            custom_binary_version: version_copy,
            custom_binary_trusted: effective,
            custom_binary_hash_match: hash_ok,
            custom_binary_security_status: String::from_str(status),
        }
    } else {
        Aria2VersionInfo {
            version: String::from_str("Built-in (1.36.0)"),
            is_custom: false,
            path: String::from_str("Embedded Sidecar"),
            custom_binary_exists: present,
            custom_binary_version: version_copy,
            custom_binary_trusted: effective,
            custom_binary_hash_match: hash_ok,
            custom_binary_security_status: String::from_str(status),
        }
    }
}

} // verus!
