//! Starting, restarting and stopping the services of the router.

use crate::addr::NANOS_PER_SEC;
use vstd::prelude::*;

verus! {

pub const DHCP_CLIENT_SERVICE_NAME: &'static str = "dhcp-client";

pub const DHCP_SERVER_SERVICE_NAME: &'static str = "dhcp-server";

pub const DNS_FORWARDER_SERVICE_NAME: &'static str = "dns-forwarder";

pub const SNTP_CLIENT_SERVICE_NAME: &'static str = "sntp-client";

pub const LAN_MANAGER_SERVICE_NAME: &'static str = "lan-manager";

pub const INTERFACE_MONITOR_SERVICE_NAME: &'static str = "interface-monitor";

/// Where the program is found while it runs.
pub const SELF_EXE_PATH: &'static str = "/proc/self/exe";

/// Where the program is installed.
pub const ROUTER_BINARY_PATH: &'static str = "/bin/trimrouter";

/// The name under which a worker sees itself.
pub const WORKER_ARG0: &'static str = "trimrouter";

/// The longest wait before a worker is started again, in seconds.
pub const MAX_RESTART_DELAY_SECS: u64 = 60;

/// A worker that ran this long, in nanoseconds, is taken to have been healthy.
pub const HEALTHY_RUN: u64 = 60_000_000_000;

/// How long a worker may take to stop before it is killed, in nanoseconds.
pub const TERMINATE_GRACE: u64 = 1_000_000_000;

/// How long to wait for a worker to be gone, in nanoseconds.
pub const TERMINATE_LIMIT: u64 = 2_000_000_000;

/// How often a worker that has been told to stop is looked at, in nanoseconds.
pub const TERMINATE_POLL: u64 = 10_000_000;

/// `std::io::Error`, of which nothing is known but that it has a text.
#[verifier::external_type_specification]
#[verifier::external_body]
pub struct ExIoError(std::io::Error);

/// Why a service could not be started or stopped.
#[derive(Debug)]
pub enum ServiceError {
    AlreadyRunning,
    NotRunning,
    Io(std::io::Error),
    FailedToStart(String),
}

/// `std::io::Error` as text, by its `Display`. Nothing is claimed of the text,
/// which for an error of the operating system depends on the machine.
#[verifier::external_body]
fn io_error_text(e: &std::io::Error) -> String {
    e.to_string()
}

impl ServiceError {
    /// How the error is put in words, where `io_cause` is what an error of input
    /// or output says.
    pub open spec fn worded(self, io_cause: Seq<char>) -> Seq<char> {
        match self {
            ServiceError::AlreadyRunning => "Service is already running"@,
            ServiceError::NotRunning => "Service is not running"@,
            ServiceError::Io(_) => "IO error: "@ + io_cause,
            ServiceError::FailedToStart(cause) => "Failed to start: "@ + cause@,
        }
    }

    /// The error in words, where `io_cause` is what an error of input or output
    /// says.
    pub fn message_with(&self, io_cause: &str) -> (r: String)
        ensures
            r@ == self.worded(io_cause@),
    {
        match self {
            ServiceError::AlreadyRunning => "Service is already running".to_owned(),
            ServiceError::NotRunning => "Service is not running".to_owned(),
            ServiceError::Io(_) => "IO error: ".to_owned().concat(io_cause),
            ServiceError::FailedToStart(cause) => "Failed to start: ".to_owned().concat(
                cause.as_str(),
            ),
        }
    }

    /// The error in words.
    pub fn message(&self) -> (r: String)
        ensures
            exists|io_cause: Seq<char>| r@ == #[trigger] self.worded(io_cause),
    {
        match self {
            ServiceError::Io(e) => self.message_with(io_error_text(e).as_str()),
            _ => self.message_with(""),
        }
    }
}

impl From<std::io::Error> for ServiceError {
    fn from(e: std::io::Error) -> (r: ServiceError) {
        ServiceError::Io(e)
    }
}

impl vstd::std_specs::convert::FromSpecImpl<std::io::Error> for ServiceError {
    open spec fn obeys_from_spec() -> bool {
        true
    }

    open spec fn from_spec(e: std::io::Error) -> ServiceError {
        ServiceError::Io(e)
    }
}

/// What can be started when it does not run, and stopped when it does.
pub trait Service: Sized {
    /// Whether it runs.
    spec fn runs(self) -> bool;

    fn start(&mut self) -> (r: Result<(), ServiceError>)
        ensures
            match r {
                Ok(()) => !old(self).runs() && final(self).runs(),
                Err(e) => old(self).runs() && e == ServiceError::AlreadyRunning && *final(self)
                    == *old(self),
            },
    ;

    fn stop(&mut self) -> (r: Result<(), ServiceError>)
        ensures
            match r {
                Ok(()) => old(self).runs() && !final(self).runs(),
                Err(e) => !old(self).runs() && e == ServiceError::NotRunning && *final(self)
                    == *old(self),
            },
    ;
}

/// Whether the task of a service has been started and not been stopped.
pub struct ServiceController {
    pub running: bool,
}

impl ServiceController {
    pub fn new() -> (r: ServiceController)
        ensures
            !r.running,
    {
        ServiceController { running: false }
    }

    pub fn is_running(&self) -> (r: bool)
        ensures
            r == self.runs(),
    {
        self.running
    }
}

impl Service for ServiceController {
    open spec fn runs(self) -> bool {
        self.running
    }

    fn start(&mut self) -> (r: Result<(), ServiceError>) {
        if self.is_running() {
            return Err(ServiceError::AlreadyRunning);
        }
        self.running = true;
        Ok(())
    }

    fn stop(&mut self) -> (r: Result<(), ServiceError>) {
        if !self.is_running() {
            return Err(ServiceError::NotRunning);
        }
        self.running = false;
        Ok(())
    }
}

/// A service whose work is done by a process of its own.
pub struct ExternalWorker {
    pub service_name: &'static str,
    pub controller: ServiceController,
    /// The process, or zero where there is none.
    pub child_pid: u32,
}

impl ExternalWorker {
    pub fn new(service_name: &'static str) -> (r: ExternalWorker)
        ensures
            r.service_name == service_name,
            !r.controller.running,
            r.child_pid == 0,
    {
        ExternalWorker { service_name, controller: ServiceController::new(), child_pid: 0 }
    }

    pub fn get_worker_pid(&self) -> (r: u32)
        ensures
            r == self.child_pid,
    {
        self.child_pid
    }

    /// Notes the process that now does the work.
    pub fn track_process(&mut self, pid: u32)
        ensures
            *final(self) == (ExternalWorker { child_pid: pid, ..*old(self) }),
    {
        self.child_pid = pid;
    }

    /// Starts the service; a process is spawned for it afterwards.
    pub fn start_supervised(&mut self) -> (r: Result<(), ServiceError>)
        ensures
            final(self).child_pid == old(self).child_pid,
            final(self).service_name == old(self).service_name,
            final(self).controller.running,
            match r {
                Ok(()) => !old(self).controller.running,
                Err(e) => old(self).controller.running && e == ServiceError::AlreadyRunning,
            },
    {
        self.controller.start()
    }

    /// Stops the service. The process that is to be terminated comes first:
    /// there is one even where the service is not found running.
    pub fn stop(&mut self) -> (r: (Option<u32>, Result<(), ServiceError>))
        ensures
            final(self).child_pid == 0,
            final(self).service_name == old(self).service_name,
            !final(self).controller.running,
            r.0 == if old(self).child_pid != 0 {
                Some(old(self).child_pid)
            } else {
                None
            },
            match r.1 {
                Ok(()) => old(self).controller.running,
                Err(e) => !old(self).controller.running && e == ServiceError::NotRunning,
            },
    {
        let pid: u32 = self.child_pid;
        self.child_pid = 0;
        let stopped = self.controller.stop();
        let terminate = if pid != 0 {
            Some(pid)
        } else {
            None
        };
        (terminate, stopped)
    }
}

/// The wait before the given attempt to run a worker, in seconds: none before
/// the first, and twice as long before each later one, up to a minute.
pub open spec fn restart_delay_secs(attempt: u32) -> int {
    if attempt == 0 {
        0
    } else if vstd::arithmetic::power2::pow2(attempt as nat) < MAX_RESTART_DELAY_SECS {
        vstd::arithmetic::power2::pow2(attempt as nat) as int
    } else {
        MAX_RESTART_DELAY_SECS as int
    }
}

proof fn lemma_small_powers(attempt: u32)
    ensures
        restart_delay_secs(attempt) == match attempt {
            0 => 0int,
            1 => 2int,
            2 => 4int,
            3 => 8int,
            4 => 16int,
            5 => 32int,
            _ => 60int,
        },
{
    vstd::arithmetic::power2::lemma2_to64();
    if attempt > 6 {
        vstd::arithmetic::power2::lemma_pow2_strictly_increases(6, attempt as nat);
    }
}

/// How long to wait before the given attempt to run a worker, in nanoseconds.
pub fn restart_delay(attempt: u32) -> (r: u64)
    ensures
        r == restart_delay_secs(attempt) * NANOS_PER_SEC,
{
    proof {
        lemma_small_powers(attempt);
    }
    let secs: u64 = if attempt == 0 {
        0
    } else if attempt == 1 {
        2
    } else if attempt == 2 {
        4
    } else if attempt == 3 {
        8
    } else if attempt == 4 {
        16
    } else if attempt == 5 {
        32
    } else {
        MAX_RESTART_DELAY_SECS
    };
    secs * NANOS_PER_SEC
}

/// Decides, once the wait before an attempt is over, whether the attempt is
/// made: not where the service was shut down during the wait. Each attempt is
/// counted.
pub fn handle_supervisor_restart_delay(attempt: &mut u32, shut_down: bool) -> (r: bool)
    requires
        *old(attempt) < u32::MAX,
    ensures
        r == !(shut_down && *old(attempt) > 0),
        *final(attempt) == if r {
            *old(attempt) + 1
        } else {
            *old(attempt) as int
        },
{
    if *attempt > 0 && shut_down {
        return false;
    }
    *attempt = *attempt + 1;
    true
}

/// How an attempt to run a worker ended.
#[derive(Clone, Copy, Debug, PartialEq, Eq, Structural)]
pub enum RunOutcome {
    /// What the worker needs could not be set up.
    SetupFailed,
    /// The process could not be spawned.
    SpawnFailed,
    /// The process was spawned, but nothing watches it.
    MonitorFailed { pid: u32 },
    /// The worker ran for this long, in nanoseconds.
    Finished { ran_for: u64 },
}

/// Takes note of how an attempt ended: after a healthy run the count of
/// attempts starts anew. A process that nothing watches is to be terminated.
pub fn attempt_supervised_run(attempt: &mut u32, outcome: RunOutcome) -> (r: Option<u32>)
    ensures
        *final(attempt) == if outcome matches RunOutcome::Finished { ran_for } && ran_for
            >= HEALTHY_RUN {
            0
        } else {
            *old(attempt)
        },
        r == match outcome {
            RunOutcome::MonitorFailed { pid } => Some(pid),
            _ => None,
        },
{
    match outcome {
        RunOutcome::MonitorFailed { pid } => Some(pid),
        RunOutcome::Finished { ran_for } => {
            if ran_for >= HEALTHY_RUN {
                *attempt = 0;
            }
            None
        },
        _ => None,
    }
}

/// The wait before an attempt never shrinks as attempts fail: it doubles while
/// that leaves it under a minute, and then stays at a minute.
pub proof fn law_restart_delays_grow_to_limit(attempt: u32)
    requires
        attempt < u32::MAX,
    ensures
        restart_delay_secs(attempt) <= restart_delay_secs((attempt + 1) as u32)
            <= MAX_RESTART_DELAY_SECS,
        0 < attempt < 5 ==> restart_delay_secs((attempt + 1) as u32) == 2 * restart_delay_secs(
            attempt,
        ),
        attempt > 5 ==> restart_delay_secs(attempt) == MAX_RESTART_DELAY_SECS,
{
    lemma_small_powers(attempt);
    lemma_small_powers((attempt + 1) as u32);
}

/// What to do about a worker that has been told to stop.
#[derive(Clone, Copy, Debug, PartialEq, Eq, Structural)]
pub struct TerminateStep {
    /// Kill it.
    pub kill: bool,
    /// Look at it again after a pause.
    pub wait: bool,
}

/// What to do about a worker that was told to stop `elapsed` nanoseconds ago.
pub open spec fn terminate_step(alive: bool, elapsed: u64, killed: bool) -> TerminateStep {
    TerminateStep {
        kill: alive && !killed && elapsed > TERMINATE_GRACE,
        wait: alive && elapsed <= TERMINATE_LIMIT,
    }
}

/// Decides what to do about a worker that was told to stop `elapsed`
/// nanoseconds ago.
pub fn terminate_worker(alive: bool, elapsed: u64, killed: &mut bool) -> (r: TerminateStep)
    ensures
        r == terminate_step(alive, elapsed, *old(killed)),
        *final(killed) == (*old(killed) || r.kill),
{
    if !alive {
        return TerminateStep { kill: false, wait: false };
    }
    let kill = !*killed && elapsed > TERMINATE_GRACE;
    if kill {
        *killed = true;
    }
    TerminateStep { kill, wait: elapsed <= TERMINATE_LIMIT }
}

/// A worker is killed only when it had its time to stop, and only once; nobody
/// waits for it beyond the limit.
pub proof fn law_worker_is_killed_once(alive: bool, elapsed: u64, later: u64, killed: bool)
    ensures
        ({
            let step = terminate_step(alive, elapsed, killed);
            let next = terminate_step(alive, later, killed || step.kill);
            &&& step.kill ==> elapsed > TERMINATE_GRACE && !next.kill
            &&& elapsed > TERMINATE_LIMIT ==> !step.wait
            &&& !alive ==> !step.kill && !step.wait
        }),
{
}

/// How a worker process is started.
#[derive(Debug, PartialEq, Eq)]
pub struct WorkerCommand {
    pub path: &'static str,
    pub arg0: &'static str,
    pub args: Vec<String>,
}

/// The texts that strings hold.
pub open spec fn texts(strings: Seq<String>) -> Seq<Seq<char>> {
    strings.map_values(|s: String| s@)
}

/// The command that starts the worker of a service: the installed program where
/// there is one, and otherwise the one that runs, told to be that worker.
pub fn worker_command(installed: bool, service_name: &str, args: &Vec<String>) -> (r: WorkerCommand)
    ensures
        r.path == if installed {
            ROUTER_BINARY_PATH
        } else {
            SELF_EXE_PATH
        },
        r.arg0 == WORKER_ARG0,
        texts(r.args@) == seq!["worker"@, service_name@] + texts(args@),
{
    let path: &'static str = if installed {
        ROUTER_BINARY_PATH
    } else {
        SELF_EXE_PATH
    };
    let mut all: Vec<String> = Vec::new();
    all.push("worker".to_owned());
    all.push(service_name.to_owned());
    assert(texts(all@) =~= seq!["worker"@, service_name@] + texts(args@.take(0)));
    let n: usize = args.len();
    let mut i: usize = 0;
    while i < n
        invariant
            i <= n,
            n == args@.len(),
            texts(all@) == seq!["worker"@, service_name@] + texts(args@.take(i as int)),
        decreases n - i,
    {
        let ghost before = all@;
        let arg = args[i].as_str().to_owned();
        all.push(arg);
        assert(texts(all@) =~= texts(before).push(arg@));
        assert(texts(args@.take(i + 1)) =~= texts(args@.take(i as int)).push(args@[i as int]@));
        assert(texts(all@) =~= seq!["worker"@, service_name@] + texts(args@.take(i + 1)));
        i += 1;
    }
    assert(args@.take(n as int) =~= args@);
    WorkerCommand { path, arg0: WORKER_ARG0, args: all }
}

} // verus!
