use vstd::prelude::*;
use vstd::string::StringExecFns;
use std::collections::VecDeque;
use crate::errors::VerdaccioError;
use crate::launch::{
    get_config_path, get_storage_path, listen_address, spec_config_path, spec_listen_addr,
    spec_listen_host, spec_storage_path, LaunchPlan,
};
use crate::logbuf::{push_evict, push_log, LogEntry, MAX_LOG_ENTRIES};
use crate::sanitize::{clean_message, clean_msg};
use crate::text::{i32_to_string, spec_decimal, spec_signed_decimal, u64_to_string};

verus! {

/// A race-free snapshot of the supervised server: whether it runs, its last
/// known port and pid, and the two well-known on-disk paths.
#[derive(Debug)]
pub struct VerdaccioStatus {
    pub running: bool,
    pub port: u16,
    pub pid: Option<u32>,
    pub storage_path: String,
    pub config_path: String,
}

/// The record of the supervised server process: its lifecycle fields and the
/// bounded buffer of captured output lines.
///
/// The operating-system child handle itself lives with the spawning shell;
/// `pid` here stands in for it: `pid is Some` exactly while a handle is held.
#[derive(Debug)]
pub struct VerdaccioProcess {
    pub port: u16,
    pub pid: Option<u32>,
    pub is_running: bool,
    pub logs: VecDeque<LogEntry>,
}

impl VerdaccioProcess {
    /// The log buffer never exceeds its capacity.
    pub open spec fn wf(self) -> bool {
        self.logs@.len() <= MAX_LOG_ENTRIES as int
    }

    /// The running flag and the pid always change together: a caller never
    /// observes "not running" beside a stale pid, nor "running" without one.
    pub open spec fn consistent(self) -> bool {
        self.is_running <==> self.pid is Some
    }
}

/// A start may proceed only from the stopped state: no handle held, not
/// running.
pub open spec fn start_allowed(s: VerdaccioProcess) -> bool {
    !s.is_running && s.pid is None
}

/// How one captured line changes the log buffer: nothing when the sanitized,
/// trimmed message is empty; otherwise exactly one entry carrying that
/// message and level is appended, evicting the oldest entry if the buffer
/// was full.  The timestamp is taken from the wall clock and is not
/// constrained here.
pub open spec fn logged_one(
    old_logs: Seq<LogEntry>,
    new_logs: Seq<LogEntry>,
    level: Seq<char>,
    raw: Seq<char>,
) -> bool {
    let cleaned = clean_msg(raw);
    if cleaned.len() == 0 {
        new_logs == old_logs
    } else {
        &&& new_logs.len() > 0
        &&& new_logs == push_evict(old_logs, new_logs.last())
        &&& new_logs.last().level@ == level
        &&& new_logs.last().message@ == cleaned
    }
}

/// `b` is `a` with entries appended at the newest end, the oldest evicted
/// only once the capacity bound is reached.
pub open spec fn logs_extend_by(a: Seq<LogEntry>, b: Seq<LogEntry>, k: int) -> bool {
    &&& 0 <= k <= a.len()
    &&& a.len() - k <= b.len()
    &&& b.subrange(0, a.len() - k) == a.skip(k)
    &&& (k == 0 || b.len() >= MAX_LOG_ENTRIES as int)
}

/// Some oldest entries may be gone, but everything else survives in order.
pub open spec fn logs_extend(a: Seq<LogEntry>, b: Seq<LogEntry>) -> bool {
    exists|k: int| logs_extend_by(a, b, k)
}

pub proof fn lemma_logs_extend_refl(a: Seq<LogEntry>)
    ensures
        logs_extend(a, a),
{
    assert(a.subrange(0, a.len() as int) =~= a.skip(0));
    assert(logs_extend_by(a, a, 0));
}

pub proof fn lemma_logged_extends(
    a: Seq<LogEntry>,
    b: Seq<LogEntry>,
    level: Seq<char>,
    raw: Seq<char>,
)
    requires
        a.len() <= MAX_LOG_ENTRIES as int,
        logged_one(a, b, level, raw),
    ensures
        logs_extend(a, b),
{
    if clean_msg(raw).len() == 0 {
        lemma_logs_extend_refl(a);
    } else {
        if a.len() < MAX_LOG_ENTRIES as int {
            assert(b.subrange(0, a.len() as int) =~= a.skip(0));
            assert(logs_extend_by(a, b, 0));
        } else {
            assert(b.subrange(0, a.len() - 1) =~= a.skip(1));
            assert(logs_extend_by(a, b, 1));
        }
    }
}

pub proof fn lemma_logs_extend_trans(a: Seq<LogEntry>, b: Seq<LogEntry>, c: Seq<LogEntry>)
    requires
        logs_extend(a, b),
        logs_extend(b, c),
    ensures
        logs_extend(a, c),
{
    let k1 = choose|k: int| logs_extend_by(a, b, k);
    let k2 = choose|k: int| logs_extend_by(b, c, k);
    if k2 <= a.len() - k1 {
        assert(c.subrange(0, a.len() - (k1 + k2)) =~= a.skip(k1 + k2)) by {
            assert forall|i: int| 0 <= i < a.len() - k1 - k2 implies c[i] == a[k1 + k2 + i] by {
                assert(c[i] == c.subrange(0, b.len() - k2)[i]);
                assert(c[i] == b.skip(k2)[i]);
                assert(b[k2 + i] == b.subrange(0, a.len() - k1)[k2 + i]);
                assert(b[k2 + i] == a.skip(k1)[k2 + i]);
            }
        }
        if k1 + k2 > 0 && k2 == 0 {
            assert(c.subrange(0, b.len() - 0) == b.skip(0));
            assert(c.len() >= b.len());
        }
        assert(logs_extend_by(a, c, k1 + k2));
    } else {
        assert(c.subrange(0, 0) =~= a.skip(a.len() as int));
        assert(logs_extend_by(a, c, a.len() as int));
    }
}

/// Relies on chrono::Local::now and its strftime formatter: the current
/// local wall-clock time rendered to millisecond precision.
#[verifier::external_body]
fn now_timestamp() -> String {
    chrono::Local::now().format("%Y-%m-%d %H:%M:%S%.3f").to_string()
}

impl Default for VerdaccioProcess {
    /// The empty record the supervisor starts from: nothing supervised,
    /// default port, no logs.
    fn default() -> (r: Self)
        ensures
            r.port == 4873,
            r.pid is None,
            !r.is_running,
            r.logs@ == Seq::<LogEntry>::empty(),
            r.wf(),
            r.consistent(),
            start_allowed(r),
    {
        VerdaccioProcess {
            port: 4873,
            pid: None,
            is_running: false,
            logs: VecDeque::with_capacity(MAX_LOG_ENTRIES),
        }
    }
}

impl VerdaccioProcess {
    /// Sanitizes the raw message, trims it, and — when anything remains —
    /// stores it with the level and the capture time, evicting the oldest
    /// entry once the buffer is full.
    pub fn add_log(&mut self, level: &str, message: String)
        requires
            old(self).wf(),
        ensures
            final(self).wf(),
            final(self).port == old(self).port,
            final(self).pid == old(self).pid,
            final(self).is_running == old(self).is_running,
            logged_one(old(self).logs@, final(self).logs@, level@, message@),
    {
        let cleaned = clean_message(message.as_str());
        if cleaned.as_str().is_empty() {
            return ;
        }
        let entry = LogEntry { timestamp: now_timestamp(), level: level.to_owned(), message: cleaned };
        let ghost l0 = self.logs@;
        let ghost e = entry;
        push_log(&mut self.logs, entry);
        proof {
            assert(self.logs@ == push_evict(l0, e));
            assert(self.logs@.last() == e);
        }
    }

    /// Sets the running flag alone; the lifecycle operations keep it
    /// consistent with the pid.
    pub fn set_running(&mut self, running: bool)
        ensures
            final(self).is_running == running,
            final(self).port == old(self).port,
            final(self).pid == old(self).pid,
            final(self).logs == old(self).logs,
    {
        self.is_running = running;
    }

    /// Whether the supervised server is currently taken to be serving.
    pub fn check_running(&self) -> (r: bool)
        ensures
            r == self.is_running,
    {
        self.is_running
    }
}

/// The decision part of a start request.  Rejects anything but the stopped
/// state, with no side effect; otherwise records the launch intent in the
/// log and hands back the plan — entry script, configuration file, listen
/// address — the spawner must use.  The pid is recorded only once the spawn
/// succeeds, by [`on_spawned`].
pub fn begin_start(
    p: &mut VerdaccioProcess,
    port: u16,
    allow_lan: bool,
    entry_path: &str,
    config_path: &str,
) -> (r: Result<LaunchPlan, VerdaccioError>)
    requires
        old(p).wf(),
    ensures
        final(p).wf(),
        final(p).port == old(p).port,
        final(p).pid == old(p).pid,
        final(p).is_running == old(p).is_running,
        r is Err <==> !start_allowed(*old(p)),
        r is Err ==> r == Err::<LaunchPlan, VerdaccioError>(VerdaccioError::AlreadyRunning)
            && *final(p) == *old(p),
        r matches Ok(plan) ==> {
            &&& plan.port == port
            &&& plan.entry_path@ == entry_path@
            &&& plan.config_path@ == config_path@
            &&& plan.listen_addr@ == spec_listen_addr(port, allow_lan)
            &&& logs_extend(old(p).logs@, final(p).logs@)
            &&& exists|l1: Seq<LogEntry>, l2: Seq<LogEntry>, l3: Seq<LogEntry>, l4: Seq<LogEntry>|
                start_logged(
                    old(p).logs@,
                    l1,
                    l2,
                    l3,
                    l4,
                    final(p).logs@,
                    port,
                    allow_lan,
                    entry_path@,
                    config_path@,
                )
        },
{
    if p.check_running() || p.pid.is_some() {
        return Err(VerdaccioError::AlreadyRunning);
    }
    let ghost l0 = p.logs@;
    let m1 = "Starting Verdaccio...".to_owned();
    let ghost m1v = m1@;
    p.add_log("INFO", m1);
    proof {
        lemma_logged_extends(l0, p.logs@, "INFO"@, m1v);
    }
    let ghost l1 = p.logs@;
    let m2 = "Verdaccio entry: ".to_owned().concat(entry_path);
    let ghost m2v = m2@;
    p.add_log("INFO", m2);
    proof {
        lemma_logged_extends(l1, p.logs@, "INFO"@, m2v);
        lemma_logs_extend_trans(l0, l1, p.logs@);
    }
    let ghost l2 = p.logs@;
    let m3 = "Config file: ".to_owned().concat(config_path);
    let ghost m3v = m3@;
    p.add_log("INFO", m3);
    proof {
        lemma_logged_extends(l2, p.logs@, "INFO"@, m3v);
        lemma_logs_extend_trans(l0, l2, p.logs@);
    }
    let ghost l3 = p.logs@;
    let m4 = "Listen port: ".to_owned().concat(u64_to_string(port as u64).as_str());
    let ghost m4v = m4@;
    p.add_log("INFO", m4);
    proof {
        lemma_logged_extends(l3, p.logs@, "INFO"@, m4v);
        lemma_logs_extend_trans(l0, l3, p.logs@);
    }
    let addr = listen_address(port, allow_lan);
    let host: &str = if allow_lan {
        "0.0.0.0"
    } else {
        "127.0.0.1"
    };
    let ghost l4 = p.logs@;
    let m5 = "Listen address: ".to_owned().concat(host);
    let ghost m5v = m5@;
    p.add_log("INFO", m5);
    proof {
        lemma_logged_extends(l4, p.logs@, "INFO"@, m5v);
        lemma_logs_extend_trans(l0, l4, p.logs@);
        assert(start_logged(l0, l1, l2, l3, l4, p.logs@, port, allow_lan, entry_path@, config_path@));
    }
    Ok(
        LaunchPlan {
            entry_path: entry_path.to_owned(),
            config_path: config_path.to_owned(),
            listen_addr: addr,
            port,
        },
    )
}

/// The five records a start request writes, in order: the intent, the
/// entry script, the configuration file, the port and the listen host, each
/// appended as [`logged_one`] describes, one after the other.
pub open spec fn start_logged(
    l0: Seq<LogEntry>,
    l1: Seq<LogEntry>,
    l2: Seq<LogEntry>,
    l3: Seq<LogEntry>,
    l4: Seq<LogEntry>,
    l5: Seq<LogEntry>,
    port: u16,
    allow_lan: bool,
    entry_path: Seq<char>,
    config_path: Seq<char>,
) -> bool {
    &&& logged_one(l0, l1, "INFO"@, "Starting Verdaccio..."@)
    &&& logged_one(l1, l2, "INFO"@, "Verdaccio entry: "@ + entry_path)
    &&& logged_one(l2, l3, "INFO"@, "Config file: "@ + config_path)
    &&& logged_one(l3, l4, "INFO"@, "Listen port: "@ + spec_decimal(port as nat))
    &&& logged_one(l4, l5, "INFO"@, "Listen address: "@ + spec_listen_host(allow_lan))
}

/// The log line recording a successful spawn.
pub open spec fn started_msg(pid: u32) -> Seq<char> {
    "Verdaccio process started, PID: "@ + spec_decimal(pid as nat)
}

/// Records a successful spawn: pid and port are captured and the running
/// flag raised, all before any caller can observe the record again.
pub fn on_spawned(p: &mut VerdaccioProcess, pid: u32, port: u16)
    requires
        old(p).wf(),
    ensures
        final(p).wf(),
        final(p).is_running,
        final(p).pid == Some(pid),
        final(p).port == port,
        final(p).consistent(),
        logged_one(old(p).logs@, final(p).logs@, "INFO"@, started_msg(pid)),
{
    let mut msg = "Verdaccio process started, PID: ".to_owned();
    msg.append(u64_to_string(pid as u64).as_str());
    p.add_log("INFO", msg);
    p.pid = Some(pid);
    p.port = port;
    p.is_running = true;
}

/// One event drained from the supervised process's combined output and
/// lifecycle channel.
pub enum ProcessEvent {
    /// A line of standard output.
    Stdout(String),
    /// A line of standard error.
    Stderr(String),
    /// A spawn or runtime error reported by the channel.
    Error(String),
    /// The process exited, with its exit code when one is known.
    Terminated(Option<i32>),
}

/// The log line recording a termination event.
pub open spec fn terminated_msg(code: Option<i32>) -> Seq<char> {
    "Verdaccio process exited, exit code: "@ + match code {
        Some(c) => spec_signed_decimal(c as int),
        None => "unknown"@,
    }
}

/// The log line recording a channel error event.
pub open spec fn process_error_msg(detail: Seq<char>) -> Seq<char> {
    "Process error: "@ + detail
}

/// Feeds one drained event into the record.  Output and error lines only
/// append to the log; a termination event also clears the running flag and
/// the pid in this single call, and asks the consumer to stop reading.
pub fn apply_event(p: &mut VerdaccioProcess, event: ProcessEvent) -> (stop: bool)
    requires
        old(p).wf(),
    ensures
        final(p).wf(),
        final(p).port == old(p).port,
        old(p).consistent() ==> final(p).consistent(),
        (match event {
            ProcessEvent::Stdout(line) => {
                &&& !stop
                &&& final(p).pid == old(p).pid
                &&& final(p).is_running == old(p).is_running
                &&& logged_one(old(p).logs@, final(p).logs@, "STDOUT"@, line@)
            },
            ProcessEvent::Stderr(line) => {
                &&& !stop
                &&& final(p).pid == old(p).pid
                &&& final(p).is_running == old(p).is_running
                &&& logged_one(old(p).logs@, final(p).logs@, "STDERR"@, line@)
            },
            ProcessEvent::Error(detail) => {
                &&& !stop
                &&& final(p).pid == old(p).pid
                &&& final(p).is_running == old(p).is_running
                &&& logged_one(old(p).logs@, final(p).logs@, "ERROR"@, process_error_msg(detail@))
            },
            ProcessEvent::Terminated(code) => {
                &&& stop
                &&& final(p).pid is None
                &&& !final(p).is_running
                &&& final(p).consistent()
                &&& logged_one(old(p).logs@, final(p).logs@, "INFO"@, terminated_msg(code))
            },
        }),
{
    match event {
        ProcessEvent::Stdout(line) => {
            p.add_log("STDOUT", line);
            false
        },
        ProcessEvent::Stderr(line) => {
            p.add_log("STDERR", line);
            false
        },
        ProcessEvent::Error(detail) => {
            let msg = "Process error: ".to_owned().concat(detail.as_str());
            p.add_log("ERROR", msg);
            false
        },
        ProcessEvent::Terminated(code) => {
            let mut msg = "Verdaccio process exited, exit code: ".to_owned();
            match code {
                Some(c) => { msg.append(i32_to_string(c).as_str()) },
                None => { msg.append("unknown") },
            }
            p.add_log("INFO", msg);
            p.is_running = false;
            p.pid = None;
            true
        },
    }
}

/// The decision part of a stop request: logs the intent and clears the pid
/// and the running flag together, whatever the later kill outcome — stop is
/// best-effort and the bookkeeping never sticks.  Returns whether a handle
/// was held, that is whether a terminate signal must be sent at all; when
/// nothing was running the call is an idempotent no-op on the record.
pub fn begin_stop(p: &mut VerdaccioProcess) -> (had: bool)
    requires
        old(p).wf(),
    ensures
        final(p).wf(),
        had == (old(p).pid is Some),
        final(p).pid is None,
        !final(p).is_running,
        final(p).consistent(),
        final(p).port == old(p).port,
        logged_one(old(p).logs@, final(p).logs@, "INFO"@, "Stopping Verdaccio..."@),
        (old(p).pid is None && !old(p).is_running) ==> (final(p).pid == old(p).pid
            && final(p).is_running == old(p).is_running),
{
    p.add_log("INFO", "Stopping Verdaccio...".to_owned());
    let had = p.pid.is_some();
    p.pid = None;
    p.is_running = false;
    had
}

/// The outcome part of a stop request, fed with the kill result: success is
/// logged and returned as such; a failed terminate signal is logged and
/// surfaced as a kill failure, for diagnostics only — the record was already
/// cleared by [`begin_stop`].
pub fn finish_stop(p: &mut VerdaccioProcess, kill_error: Option<String>) -> (r: Result<
    (),
    VerdaccioError,
>)
    requires
        old(p).wf(),
    ensures
        final(p).wf(),
        final(p).pid == old(p).pid,
        final(p).is_running == old(p).is_running,
        final(p).port == old(p).port,
        (match kill_error {
            None => r is Ok && logged_one(
                old(p).logs@,
                final(p).logs@,
                "INFO"@,
                "Verdaccio stopped"@,
            ),
            Some(detail) => r == Err::<(), VerdaccioError>(VerdaccioError::KillFailed(detail))
                && logged_one(
                old(p).logs@,
                final(p).logs@,
                "ERROR"@,
                "Failed to stop process: "@ + detail@,
            ),
        }),
{
    match kill_error {
        None => {
            p.add_log("INFO", "Verdaccio stopped".to_owned());
            Ok(())
        },
        Some(detail) => {
            let msg = "Failed to stop process: ".to_owned().concat(detail.as_str());
            p.add_log("ERROR", msg);
            Err(VerdaccioError::KillFailed(detail))
        },
    }
}

/// A snapshot of the record, computed without mutating anything: the running
/// flag, the last known port and pid, and the two well-known paths under the
/// given base directory.
pub fn get_verdaccio_status(p: &VerdaccioProcess, home: &str) -> (r: VerdaccioStatus)
    ensures
        r.running == p.is_running,
        r.port == p.port,
        r.pid == p.pid,
        r.storage_path@ == spec_storage_path(home@),
        r.config_path@ == spec_config_path(home@),
{
    VerdaccioStatus {
        running: p.check_running(),
        port: p.port,
        pid: p.pid,
        storage_path: get_storage_path(home),
        config_path: get_config_path(home),
    }
}

/// An ordered copy of the captured log, oldest entry first.
pub fn get_verdaccio_logs(p: &VerdaccioProcess) -> (r: Vec<LogEntry>)
    ensures
        r@ == p.logs@,
{
    let n = p.logs.len();
    let mut r: Vec<LogEntry> = Vec::new();
    let mut i: usize = 0;
    while i < n
        invariant
            n == p.logs@.len(),
            i <= n,
            r@ == p.logs@.subrange(0, i as int),
        decreases n - i,
    {
        r.push(p.logs[i].clone());
        assert(r@ =~= p.logs@.subrange(0, i + 1 as int));
        i += 1;
    }
    assert(r@ =~= p.logs@);
    r
}

/// Empties the log buffer in one step.
pub fn clear_verdaccio_logs(p: &mut VerdaccioProcess)
    ensures
        final(p).logs@ == Seq::<LogEntry>::empty(),
        final(p).wf(),
        final(p).port == old(p).port,
        final(p).pid == old(p).pid,
        final(p).is_running == old(p).is_running,
{
    p.logs.clear();
}

/// The bundled runtime answers for itself; the probe always succeeds.
pub fn check_verdaccio_installed() -> (r: Result<bool, String>)
    ensures
        r == Ok::<bool, String>(true),
{
    Ok(true)
}

/// Once a start is recorded, the machine is no longer in the stopped state,
/// so a second start attempt — with no stop in between — is rejected as
/// already running, whatever else happened since.
pub proof fn lemma_second_start_rejected(s: VerdaccioProcess)
    requires
        s.is_running,
    ensures
        !start_allowed(s),
{
}

/// A consistent record never pairs a cleared running flag with a stale pid:
/// whoever observes "not running" also observes no pid.
pub proof fn lemma_no_stale_pid(s: VerdaccioProcess)
    requires
        s.consistent(),
        !s.is_running,
    ensures
        s.pid is None,
{
}

/// A consistent record of a running process always carries its pid.
pub proof fn lemma_running_has_pid(s: VerdaccioProcess)
    requires
        s.consistent(),
        s.is_running,
    ensures
        s.pid is Some,
{
}

} // verus!
