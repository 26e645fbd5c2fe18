use trimrouter::addr::Ipv4Addr;
use trimrouter::dns_manager::{
    initial_sync, run_parent_dns_monitor, DnsParentAction, DnsParentEvent, LocalHosts,
};
use trimrouter::ipc::{DnsParentToWorkerMsg, LocalHostEvent};
use trimrouter::supervisor::{
    attempt_supervised_run, handle_supervisor_restart_delay, restart_delay, terminate_worker,
    worker_command, ExternalWorker, RunOutcome, Service, ServiceController, ServiceError,
    TerminateStep, DNS_FORWARDER_SERVICE_NAME,
};
use trimrouter::system::{
    hangs_on_panic, mount_virtual_filesystems, panic_cause, MountStep, RealSystem,
};

const SECOND: u64 = 1_000_000_000;

#[test]
fn test_service_error_display_and_from_io() {
    let err_already = ServiceError::AlreadyRunning;
    assert_eq!(err_already.message(), "Service is already running");

    let err_not_running = ServiceError::NotRunning;
    assert_eq!(err_not_running.message(), "Service is not running");

    let io_err = std::io::Error::new(std::io::ErrorKind::ConnectionReset, "socket dropped");
    let err_io = ServiceError::from(io_err);
    assert!(err_io.message().contains("IO error: socket dropped"));

    let err_failed = ServiceError::FailedToStart("missing executable".to_string());
    assert_eq!(err_failed.message(), "Failed to start: missing executable");
}

#[test]
fn test_service_controller_lifecycle_and_error_states() {
    let mut controller = ServiceController::new();
    assert!(!controller.is_running());

    let stop_res = controller.stop();
    assert!(matches!(stop_res, Err(ServiceError::NotRunning)));

    let start_res = controller.start();
    assert!(start_res.is_ok());
    assert!(controller.is_running());

    let double_start = controller.start();
    assert!(matches!(double_start, Err(ServiceError::AlreadyRunning)));

    let stop_res = controller.stop();
    assert!(stop_res.is_ok());
    assert!(!controller.is_running());

    let stop_again = controller.stop();
    assert!(matches!(stop_again, Err(ServiceError::NotRunning)));
}

#[test]
fn test_external_worker_initial_pid() {
    let worker = ExternalWorker::new("test-worker");
    assert_eq!(worker.get_worker_pid(), 0);
}

#[test]
fn test_external_worker_start_supervised_lifecycle() {
    let mut worker = ExternalWorker::new("test-worker");

    let res = worker.start_supervised();
    assert!(res.is_ok());

    let (terminate, stop_res) = worker.stop();
    assert_eq!(terminate, None);
    assert!(stop_res.is_ok());
}

#[test]
fn stopping_a_worker_names_its_process() {
    let mut worker = ExternalWorker::new(DNS_FORWARDER_SERVICE_NAME);
    worker.start_supervised().unwrap();
    assert!(matches!(
        worker.start_supervised(),
        Err(ServiceError::AlreadyRunning)
    ));
    worker.track_process(4711);
    let (terminate, stopped) = worker.stop();
    assert_eq!(terminate, Some(4711));
    assert!(stopped.is_ok());
    let (terminate, stopped) = worker.stop();
    assert_eq!(terminate, None);
    assert!(matches!(stopped, Err(ServiceError::NotRunning)));
}

#[test]
fn test_supervisor_restart_delay_zero_attempt() {
    let mut attempt = 0;
    assert_eq!(restart_delay(attempt), 0);
    let proceed = handle_supervisor_restart_delay(&mut attempt, false);
    assert!(proceed);
    assert_eq!(attempt, 1);
}

#[test]
fn restart_delays_double_up_to_a_minute() {
    let secs: Vec<u64> = (0..9).map(|n| restart_delay(n) / SECOND).collect();
    assert_eq!(secs, vec![0, 2, 4, 8, 16, 32, 60, 60, 60]);
    assert_eq!(restart_delay(u32::MAX), 60 * SECOND);
}

#[test]
fn shutdown_during_the_wait_ends_the_attempts() {
    let mut attempt = 3;
    assert!(!handle_supervisor_restart_delay(&mut attempt, true));
    assert_eq!(attempt, 3);
    let mut first = 0;
    assert!(handle_supervisor_restart_delay(&mut first, true));
}

#[test]
fn healthy_run_resets_the_count() {
    let mut attempt = 5;
    let short = RunOutcome::Finished { ran_for: 59 * SECOND };
    assert_eq!(attempt_supervised_run(&mut attempt, short), None);
    assert_eq!(attempt, 5);
    let failed = RunOutcome::MonitorFailed { pid: 9 };
    assert_eq!(attempt_supervised_run(&mut attempt, failed), Some(9));
    assert_eq!(attempt, 5);
    let long = RunOutcome::Finished { ran_for: 60 * SECOND };
    assert_eq!(attempt_supervised_run(&mut attempt, long), None);
    assert_eq!(attempt, 0);
}

#[test]
fn worker_is_killed_once_and_not_awaited_forever() {
    let mut killed = false;
    let wait = TerminateStep {
        kill: false,
        wait: true,
    };
    assert_eq!(terminate_worker(true, SECOND, &mut killed), wait);
    assert_eq!(
        terminate_worker(true, SECOND + 1, &mut killed),
        TerminateStep {
            kill: true,
            wait: true,
        }
    );
    assert_eq!(terminate_worker(true, 2 * SECOND, &mut killed), wait);
    assert_eq!(
        terminate_worker(true, 2 * SECOND + 1, &mut killed),
        TerminateStep {
            kill: false,
            wait: false,
        }
    );
    let mut killed = false;
    assert_eq!(
        terminate_worker(false, 5 * SECOND, &mut killed),
        TerminateStep {
            kill: false,
            wait: false,
        }
    );
}

#[test]
fn worker_is_told_which_service_it_is() {
    let command = worker_command(true, "sntp-client", &vec!["5".to_string()]);
    assert_eq!(command.path, "/bin/trimrouter");
    assert_eq!(command.arg0, "trimrouter");
    assert_eq!(command.args, vec!["worker", "sntp-client", "5"]);
    assert_eq!(worker_command(false, "x", &vec![]).path, "/proc/self/exe");
}

#[test]
fn test_vfs_mounting() {
    let mut calls = Vec::new();
    loop {
        match mount_virtual_filesystems(calls.len(), None) {
            MountStep::Mount(mount) => calls.push((mount.target, mount.fstype)),
            MountStep::SetModprobePath => break,
            MountStep::Failed(_) => panic!("nothing has failed"),
        }
    }
    assert_eq!(calls.len(), 4);
    assert_eq!(calls[0], ("/proc", "proc"));
    assert_eq!(calls[1], ("/sys", "sysfs"));
    assert_eq!(calls[2], ("/dev", "devtmpfs"));
    assert_eq!(calls[3], ("/run", "tmpfs"));
}

#[test]
fn failed_mount_is_named() {
    assert_eq!(
        mount_virtual_filesystems(2, Some("EBUSY")),
        MountStep::Failed("Failed to mount /dev: EBUSY".to_string())
    );
}

#[test]
fn only_the_first_process_mounts_and_hangs() {
    assert!(RealSystem.mounts(1));
    assert!(!RealSystem.mounts(99));
    assert!(hangs_on_panic(1));
    assert!(!hangs_on_panic(99));
    assert_eq!(
        panic_cause(Some("Test panic exception")),
        "Panic Cause: Test panic exception"
    );
    assert_eq!(panic_cause(None), "Panic Cause: Unknown");
}

fn registration(name: &str, ip: Ipv4Addr) -> DnsParentToWorkerMsg {
    DnsParentToWorkerMsg::RegisterLocalHost {
        name: name.to_string(),
        ip,
    }
}

#[test]
fn new_dns_worker_is_told_resolvers_and_hosts() {
    let mut hosts = LocalHosts::new();
    let laptop = Ipv4Addr::new(192, 168, 1, 10);
    let printer = Ipv4Addr::new(192, 168, 1, 11);
    hosts.register("laptop".to_string(), printer);
    hosts.register("printer".to_string(), printer);
    hosts.register("laptop".to_string(), laptop);
    assert_eq!(hosts.get(&"laptop".to_string()), Some(laptop));

    let (_, messages) = initial_sync(7, &vec![], &hosts);
    assert_eq!(messages.len(), 2);
    assert!(messages.contains(&registration("laptop", laptop)));
    assert!(messages.contains(&registration("printer", printer)));

    let servers = vec![Ipv4Addr::new(1, 1, 1, 1)];
    let (monitor, messages) = initial_sync(7, &servers, &hosts);
    assert_eq!(monitor.child_pid, 7);
    assert_eq!(monitor.last_dns_servers, servers);
    assert_eq!(messages.len(), 3);
    assert_eq!(
        messages[0],
        DnsParentToWorkerMsg::SetUpstreamResolvers { servers }
    );
}

#[test]
fn dns_parent_passes_changes_on() {
    let mut hosts = LocalHosts::new();
    let (mut monitor, messages) = initial_sync(7, &vec![], &hosts);
    assert!(messages.is_empty());
    let servers = vec![Ipv4Addr::new(1, 1, 1, 1), Ipv4Addr::new(1, 0, 0, 1)];

    let changed = DnsParentEvent::LeaseChanged {
        servers: servers.clone(),
    };
    match run_parent_dns_monitor(&mut monitor, &mut hosts, changed) {
        DnsParentAction::SendOrStop(msg) => assert_eq!(
            msg,
            DnsParentToWorkerMsg::SetUpstreamResolvers {
                servers: servers.clone()
            }
        ),
        _ => panic!("the resolvers are passed on"),
    }
    let same = DnsParentEvent::LeaseChanged { servers };
    assert!(matches!(
        run_parent_dns_monitor(&mut monitor, &mut hosts, same),
        DnsParentAction::Nothing
    ));

    let ip = Ipv4Addr::new(192, 168, 1, 10);
    let registered = DnsParentEvent::Host(LocalHostEvent::Register {
        name: "laptop".to_string(),
        ip,
    });
    match run_parent_dns_monitor(&mut monitor, &mut hosts, registered) {
        DnsParentAction::Send(msg) => assert_eq!(msg, registration("laptop", ip)),
        _ => panic!("the host is passed on"),
    }
    assert_eq!(hosts.get(&"laptop".to_string()), Some(ip));
    let deregistered = DnsParentEvent::Host(LocalHostEvent::Deregister {
        name: "laptop".to_string(),
    });
    match run_parent_dns_monitor(&mut monitor, &mut hosts, deregistered) {
        DnsParentAction::Send(msg) => assert_eq!(
            msg,
            DnsParentToWorkerMsg::DeregisterLocalHost {
                name: "laptop".to_string()
            }
        ),
        _ => panic!("the loss is passed on"),
    }
    assert_eq!(hosts.get(&"laptop".to_string()), None);

    assert!(matches!(
        run_parent_dns_monitor(&mut monitor, &mut hosts, DnsParentEvent::Heartbeat),
        DnsParentAction::Heartbeat
    ));
    for event in [
        DnsParentEvent::Shutdown,
        DnsParentEvent::WorkerGone,
        DnsParentEvent::LeaseSenderGone,
        DnsParentEvent::SendFailed,
    ] {
        assert!(matches!(
            run_parent_dns_monitor(&mut monitor, &mut hosts, event),
            DnsParentAction::Stop { pid: 7 }
        ));
    }
}

/// The resolvers that a worker is told, where the lease names these lists one
/// after the other.
fn resolvers_told(lists: &[Vec<Ipv4Addr>]) -> Vec<Vec<Ipv4Addr>> {
    let mut hosts = LocalHosts::new();
    hosts.register("laptop".to_string(), Ipv4Addr::new(192, 168, 1, 10));
    let (mut monitor, mut messages) = initial_sync(7, &lists[0], &hosts);
    for servers in &lists[1..] {
        for event in [
            DnsParentEvent::LeaseChanged {
                servers: servers.clone(),
            },
            DnsParentEvent::Heartbeat,
            DnsParentEvent::Host(LocalHostEvent::Deregister {
                name: "laptop".to_string(),
            }),
        ] {
            match run_parent_dns_monitor(&mut monitor, &mut hosts, event) {
                DnsParentAction::Send(msg) | DnsParentAction::SendOrStop(msg) => messages.push(msg),
                DnsParentAction::Nothing | DnsParentAction::Heartbeat => {}
                DnsParentAction::Stop { .. } => panic!("nothing ends the parent"),
            }
        }
    }
    messages
        .into_iter()
        .filter_map(|msg| match msg {
            DnsParentToWorkerMsg::SetUpstreamResolvers { servers } => Some(servers),
            _ => None,
        })
        .collect()
}

#[test]
fn dns_worker_is_told_each_change_of_resolvers_once() {
    let a = vec![Ipv4Addr::new(1, 1, 1, 1)];
    let b = vec![Ipv4Addr::new(8, 8, 8, 8), Ipv4Addr::new(8, 8, 4, 4)];
    let none: Vec<Ipv4Addr> = vec![];
    assert_eq!(
        resolvers_told(&[a.clone(), a.clone(), b.clone(), b.clone(), a.clone()]),
        vec![a.clone(), b.clone(), a.clone()]
    );
    assert_eq!(
        resolvers_told(&[none.clone(), none.clone(), a.clone(), none.clone(), none.clone()]),
        vec![a, none.clone()]
    );
    assert!(resolvers_told(&[none.clone(), none]).is_empty());
}
