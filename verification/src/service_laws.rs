//! How the services of the router are run, and what their parents pass on, told
//! of what goes into the functions and what comes out.

use crate::addr::{Ipv4Addr, MacAddr};
use crate::dns_manager::{
    initial_sync, is_registration, run_parent_dns_monitor, update_upstream_resolvers, DnsMonitor, DnsParentAction,
    DnsParentEvent, LocalHosts,
};
use crate::frame_laws::names;
use crate::ipc::{
    DhcpServerParentToWorkerMsg, DhcpServerWorkerToParentMsg, DnsParentToWorkerMsg, LocalHostEvent,
};
use crate::netlink::{
    find_mac_address_attribute, first_mac, is_address_or_link_event, last_destination, last_mac,
    parse_neighbor_update, run_parent_dhcp_server_monitor, LinkAttribute, NeighbourAttribute,
    NetlinkEvent, ServerParentAction, ServerParentEvent,
};
use crate::supervisor::{
    attempt_supervised_run, handle_supervisor_restart_delay, restart_delay, terminate_worker,
    texts, worker_command, ExternalWorker, RunOutcome, Service, ServiceController, ServiceError,
    TerminateStep, WorkerCommand,
};
use crate::system::{
    hangs_on_panic, mount_virtual_filesystems, virtual_filesystems, MountStep, RealSystem,
};
use vstd::prelude::*;

verus! {

/// A worker is started at once the first time; each time that it fails, the wait
/// before the next attempt is twice as long, from two seconds up to a minute.
pub proof fn law_restarts_slow_down(attempt: u32, r: u64)
    requires
        call_ensures(restart_delay, (attempt,), r),
    ensures
        attempt == 0 ==> r == 0,
        attempt == 1 ==> r == 2_000_000_000,
        attempt == 2 ==> r == 4_000_000_000,
        attempt == 3 ==> r == 8_000_000_000,
        attempt == 4 ==> r == 16_000_000_000,
        attempt == 5 ==> r == 32_000_000_000,
        attempt >= 6 ==> r == 60_000_000_000,
{
    vstd::arithmetic::power2::lemma2_to64();
    if attempt > 6 {
        vstd::arithmetic::power2::lemma_pow2_strictly_increases(6, attempt as nat);
    }
}

/// Each attempt is counted; one that would follow a wait is not made when the
/// service was shut down meanwhile.
pub proof fn law_attempts_are_counted(attempt: &mut u32, shut_down: bool, r: bool)
    requires
        call_ensures(handle_supervisor_restart_delay, (attempt, shut_down), r),
    ensures
        !shut_down ==> r,
        *old(attempt) == 0 ==> r,
        shut_down && *old(attempt) > 0 ==> !r,
        r ==> *final(attempt) == *old(attempt) + 1,
        !r ==> *final(attempt) == *old(attempt),
{
}

/// After a worker has run for a minute, the count of attempts starts anew; it is
/// kept after any other end. A process that nothing watches is terminated, and no
/// other.
pub proof fn law_healthy_runs_are_forgiven(attempt: &mut u32, outcome: RunOutcome, r: Option<u32>)
    requires
        call_ensures(attempt_supervised_run, (attempt, outcome), r),
    ensures
        match outcome {
            RunOutcome::Finished { ran_for } => r is None && *final(attempt) == (if ran_for
                >= 60_000_000_000 {
                0
            } else {
                *old(attempt)
            }),
            RunOutcome::MonitorFailed { pid } => r == Some(pid) && *final(attempt) == *old(attempt),
            RunOutcome::SetupFailed => r is None && *final(attempt) == *old(attempt),
            RunOutcome::SpawnFailed => r is None && *final(attempt) == *old(attempt),
        },
{
}

/// A worker that was told to stop has a second to do so, is then killed, once, and
/// is waited for no longer than two seconds.
pub proof fn law_workers_have_a_second_to_stop(
    alive: bool,
    elapsed: u64,
    killed: &mut bool,
    r: TerminateStep,
)
    requires
        call_ensures(terminate_worker, (alive, elapsed, killed), r),
    ensures
        r.kill <==> alive && !*old(killed) && elapsed > 1_000_000_000,
        r.wait <==> alive && elapsed <= 2_000_000_000,
        *final(killed) <==> *old(killed) || r.kill,
{
}

/// A service is started only where it does not run, and stopped only where it
/// does; its process is given up when it is stopped, whether or not it runs.
pub proof fn law_services_start_and_stop(
    started: &mut ExternalWorker,
    start: Result<(), ServiceError>,
    stopped: &mut ExternalWorker,
    stop: (Option<u32>, Result<(), ServiceError>),
)
    requires
        call_ensures(ExternalWorker::start_supervised, (started,), start),
        call_ensures(ExternalWorker::stop, (stopped,), stop),
    ensures
        start is Ok <==> !old(started).controller.running,
        start matches Err(e) ==> e == ServiceError::AlreadyRunning,
        final(started).controller.running,
        final(started).child_pid == old(started).child_pid,
        stop.1 is Ok <==> old(stopped).controller.running,
        stop.1 matches Err(e) ==> e == ServiceError::NotRunning,
        !final(stopped).controller.running,
        final(stopped).child_pid == 0,
        old(stopped).child_pid != 0 ==> stop.0 == Some(old(stopped).child_pid),
        old(stopped).child_pid == 0 ==> stop.0 is None,
{
}

/// The process of a service is the one that was noted last.
pub proof fn law_process_is_noted(worker: &mut ExternalWorker, pid: u32, r: (), seen: ExternalWorker, got: u32)
    requires
        call_ensures(ExternalWorker::track_process, (worker, pid), r),
        seen == *final(worker),
        call_ensures(ExternalWorker::get_worker_pid, (&seen,), got),
    ensures
        got == pid,
        final(worker).controller.running == old(worker).controller.running,
{
}

/// The program that is installed, or else the one that runs, is started as the
/// worker of the service, with the given arguments.
pub proof fn law_worker_is_started_as_itself(
    installed: bool,
    service_name: &str,
    args: Vec<String>,
    r: WorkerCommand,
    i: int,
)
    requires
        call_ensures(worker_command, (installed, service_name, &args), r),
    ensures
        installed ==> r.path@ == "/bin/trimrouter"@,
        !installed ==> r.path@ == "/proc/self/exe"@,
        r.arg0@ == "trimrouter"@,
        r.args@.len() == args@.len() + 2,
        r.args@[0]@ == "worker"@,
        r.args@[1]@ == service_name@,
        0 <= i < args@.len() ==> r.args@[i + 2]@ == args@[i]@,
{
    let all = seq!["worker"@, service_name@] + texts(args@);
    assert(texts(r.args@).len() == all.len());
    assert(texts(r.args@)[0] == all[0]);
    assert(texts(r.args@)[1] == all[1]);
    if 0 <= i < args@.len() {
        assert(texts(r.args@)[i + 2] == all[i + 2]);
    }
}

/// Only the first process mounts file systems, and only that one hangs when it
/// panics.
pub proof fn law_first_process_is_number_one(
    system: RealSystem,
    pid: i32,
    mounts: bool,
    hangs: bool,
)
    requires
        call_ensures(RealSystem::mounts, (&system, pid), mounts),
        call_ensures(hangs_on_panic, (pid,), hangs),
    ensures
        mounts <==> pid == 1,
        hangs <==> pid == 1,
{
}

/// The four virtual file systems are mounted one after the other, and the paths
/// are those that the programs expect; a failure ends that.
pub proof fn law_file_systems_are_mounted_in_order(
    mounted: usize,
    failure: Option<&str>,
    r: MountStep,
)
    requires
        call_ensures(mount_virtual_filesystems, (mounted, failure), r),
    ensures
        mounted >= 4 ==> r is SetModprobePath,
        mounted < 4 && failure is Some ==> (r matches MountStep::Failed(text) && text@
            == "Failed to mount "@ + (match mounted {
            0 => "/proc"@,
            1 => "/sys"@,
            2 => "/dev"@,
            _ => "/run"@,
        }) + ": "@ + failure->0@),
        mounted < 4 && failure is None ==> (r matches MountStep::Mount(m) && match mounted {
            0 => m.target@ == "/proc"@ && m.fstype@ == "proc"@,
            1 => m.target@ == "/sys"@ && m.fstype@ == "sysfs"@,
            2 => m.target@ == "/dev"@ && m.fstype@ == "devtmpfs"@,
            _ => m.target@ == "/run"@ && m.fstype@ == "tmpfs"@,
        }),
{
    assert(virtual_filesystems().len() == 4);
}

/// A name that is given to a host is found with its address; a name that is taken
/// away is not found; the others are found as before.
pub proof fn law_names_of_hosts_are_kept(
    given: &mut LocalHosts,
    taken: &mut LocalHosts,
    name: String,
    ip: Ipv4Addr,
    other: Seq<char>,
    r: (),
    s: (),
)
    requires
        call_ensures(LocalHosts::register, (given, name, ip), r),
        call_ensures(LocalHosts::deregister, (taken, &name), s),
    ensures
        final(given)@.contains_key(name@),
        final(given)@[name@] == ip,
        other != name@ ==> final(given)@.contains_key(other) == old(given)@.contains_key(other),
        other != name@ && old(given)@.contains_key(other) ==> final(given)@[other]
            == old(given)@[other],
        !final(taken)@.contains_key(name@),
        other != name@ ==> final(taken)@.contains_key(other) == old(taken)@.contains_key(other),
        other != name@ && old(taken)@.contains_key(other) ==> final(taken)@[other]
            == old(taken)@[other],
{
}

/// The address of a host is found under its name.
pub proof fn law_host_is_found_under_its_name(hosts: LocalHosts, name: String, r: Option<Ipv4Addr>)
    requires
        call_ensures(LocalHosts::get, (&hosts, &name), r),
    ensures
        r is Some <==> hosts@.contains_key(name@),
        r matches Some(ip) ==> ip == hosts@[name@],
{
}

/// A new worker is told the resolvers first, where there are any, and then every
/// host, once each, with its address.
pub proof fn law_new_worker_is_told_everything(
    pid: u32,
    servers: Vec<Ipv4Addr>,
    hosts: LocalHosts,
    r: (DnsMonitor, Vec<DnsParentToWorkerMsg>),
    name: Seq<char>,
)
    requires
        call_ensures(initial_sync, (pid, &servers, &hosts), r),
    ensures
        r.0.child_pid == pid,
        r.0.last_dns_servers@ == servers@,
        servers@.len() > 0 ==> r.1@.len() > 0 && (
        r.1@[0] matches DnsParentToWorkerMsg::SetUpstreamResolvers { servers: told } && told@
            == servers@),
        hosts@.contains_key(name) ==> exists|j: int|
            0 <= j < r.1@.len() && (#[trigger] r.1@[j] matches DnsParentToWorkerMsg::RegisterLocalHost {
                name: n,
                ip,
            } && n@ == name && ip == hosts@[name]),
        forall|j: int|
            0 <= j < r.1@.len() && (servers@.len() == 0 || j > 0) ==> (
            #[trigger] r.1@[j] matches DnsParentToWorkerMsg::RegisterLocalHost { name: n, ip }
                && hosts@.contains_key(n@) && hosts@[n@] == ip),
        forall|i: int, j: int|
            0 <= i < j < r.1@.len() && (servers@.len() == 0 || i > 0) ==> (
            #[trigger] r.1@[i])->RegisterLocalHost_name@ != (
            #[trigger] r.1@[j])->RegisterLocalHost_name@,
{
    let messages = r.1@;
    if servers@.len() == 0 {
        if hosts@.contains_key(name) {
            let j = choose|j: int|
                0 <= j < messages.len() && #[trigger] is_registration(
                    messages[j],
                    name,
                    hosts@[name],
                );
            assert(is_registration(messages[j], name, hosts@[name]));
        }
        assert forall|j: int| 0 <= j < messages.len() implies (
        #[trigger] messages[j] matches DnsParentToWorkerMsg::RegisterLocalHost { name: n, ip }
            && hosts@.contains_key(n@) && hosts@[n@] == ip) by {
            assert(crate::dns_manager::names_one_of(messages[j], hosts@));
        }
        assert forall|i: int, j: int| 0 <= i < j < messages.len() implies (
        #[trigger] messages[i])->RegisterLocalHost_name@ != (
        #[trigger] messages[j])->RegisterLocalHost_name@ by {
            assert(crate::dns_manager::names_one_of(messages[i], hosts@));
            assert(crate::dns_manager::names_one_of(messages[j], hosts@));
            assert(!crate::dns_manager::same_registration(messages[i], messages[j]));
        }
    } else {
        let rest = messages.skip(1);
        assert forall|i: int, j: int| 0 < i < j < messages.len() implies (
        #[trigger] messages[i])->RegisterLocalHost_name@ != (
        #[trigger] messages[j])->RegisterLocalHost_name@ by {
            assert(rest[i - 1] == messages[i] && rest[j - 1] == messages[j]);
            assert(crate::dns_manager::names_one_of(rest[i - 1], hosts@));
            assert(crate::dns_manager::names_one_of(rest[j - 1], hosts@));
            assert(!crate::dns_manager::same_registration(rest[i - 1], rest[j - 1]));
        }
        if hosts@.contains_key(name) {
            let j = choose|j: int|
                0 <= j < rest.len() && #[trigger] is_registration(rest[j], name, hosts@[name]);
            assert(messages[j + 1] == rest[j]);
        }
        assert forall|j: int| 0 < j < messages.len() implies (
        #[trigger] messages[j] matches DnsParentToWorkerMsg::RegisterLocalHost { name: n, ip }
            && hosts@.contains_key(n@) && hosts@[n@] == ip) by {
            assert(rest[j - 1] == messages[j]);
            assert(crate::dns_manager::names_one_of(rest[j - 1], hosts@));
        }
    }
}

/// The worker is told of new resolvers where they differ from those it was told
/// last, and of every host that comes by a name or loses it; a sign of life is
/// passed on. Whatever ends the parent terminates the worker.
pub proof fn law_worker_is_told_what_changes(
    monitor: &mut DnsMonitor,
    hosts: &mut LocalHosts,
    event: DnsParentEvent,
    r: DnsParentAction,
)
    requires
        call_ensures(run_parent_dns_monitor, (monitor, hosts, event), r),
    ensures
        final(monitor).child_pid == old(monitor).child_pid,
        !(event is LeaseChanged) ==> final(monitor).last_dns_servers@
            == old(monitor).last_dns_servers@,
        !(event is Host) ==> final(hosts)@ == old(hosts)@,
        match event {
            DnsParentEvent::Heartbeat => r is Heartbeat,
            DnsParentEvent::LeaseChanged { servers } => {
                &&& final(monitor).last_dns_servers@ == servers@
                &&& servers@ == old(monitor).last_dns_servers@ ==> r is Nothing
                &&& servers@ != old(monitor).last_dns_servers@ ==> (
                r matches DnsParentAction::SendOrStop(
                    DnsParentToWorkerMsg::SetUpstreamResolvers { servers: told },
                ) && told@ == servers@)
            },
            DnsParentEvent::Host(LocalHostEvent::Register { name, ip }) => {
                &&& final(hosts)@ == old(hosts)@.insert(name@, ip)
                &&& r matches DnsParentAction::Send(
                    DnsParentToWorkerMsg::RegisterLocalHost { name: said, ip: at },
                )
                &&& said@ == name@
                &&& at == ip
            },
            DnsParentEvent::Host(LocalHostEvent::Deregister { name }) => {
                &&& final(hosts)@ == old(hosts)@.remove(name@)
                &&& r matches DnsParentAction::Send(
                    DnsParentToWorkerMsg::DeregisterLocalHost { name: said },
                )
                &&& said@ == name@
            },
            DnsParentEvent::Shutdown => r == (DnsParentAction::Stop {
                pid: old(monitor).child_pid,
            }),
            DnsParentEvent::WorkerGone => r == (DnsParentAction::Stop {
                pid: old(monitor).child_pid,
            }),
            DnsParentEvent::LeaseSenderGone => r == (DnsParentAction::Stop {
                pid: old(monitor).child_pid,
            }),
            DnsParentEvent::SendFailed => r == (DnsParentAction::Stop {
                pid: old(monitor).child_pid,
            }),
        },
{
}

/// Whether an attribute is a link-layer address of six octets.
pub open spec fn is_six_octets(attribute: NeighbourAttribute) -> bool {
    attribute matches NeighbourAttribute::LinkLayerAddress(octets) && octets@.len() == 6
}

/// Whether `ip` is the last IPv4 address among the attributes.
pub open spec fn is_last_ip(attributes: Seq<NeighbourAttribute>, ip: Ipv4Addr) -> bool {
    exists|i: int|
        0 <= i < attributes.len() && #[trigger] attributes[i] == NeighbourAttribute::Destination(ip)
            && forall|j: int| i < j < attributes.len() ==> !(#[trigger] attributes[j] is Destination)
}

/// Whether `mac` is the last link-layer address of six octets among the
/// attributes.
pub open spec fn is_last_mac(attributes: Seq<NeighbourAttribute>, mac: MacAddr) -> bool {
    exists|i: int|
        0 <= i < attributes.len() && is_six_octets(#[trigger] attributes[i]) && names(
            attributes[i]->LinkLayerAddress_0@,
            0,
            mac,
        ) && forall|j: int| i < j < attributes.len() ==> !is_six_octets(#[trigger] attributes[j])
}

proof fn lemma_last_ip(attributes: Seq<NeighbourAttribute>)
    ensures
        match last_destination(attributes) {
            Some(ip) => is_last_ip(attributes, ip),
            None => forall|i: int|
                0 <= i < attributes.len() ==> !(#[trigger] attributes[i] is Destination),
        },
    decreases attributes.len(),
{
    if attributes.len() > 0 {
        let n = attributes.len() - 1;
        let rest = attributes.drop_last();
        if !(attributes[n] is Destination) {
            lemma_last_ip(rest);
            match last_destination(rest) {
                Some(ip) => {
                    let i = choose|i: int|
                        0 <= i < rest.len() && #[trigger] rest[i]
                            == NeighbourAttribute::Destination(ip) && forall|j: int|
                            i < j < rest.len() ==> !(#[trigger] rest[j] is Destination);
                    assert(attributes[i] == NeighbourAttribute::Destination(ip));
                    assert forall|j: int| i < j < attributes.len() implies !(
                    #[trigger] attributes[j] is Destination) by {
                        if j < n {
                            assert(rest[j] == attributes[j]);
                        }
                    }
                },
                None => {
                    assert forall|i: int| 0 <= i < attributes.len() implies !(
                    #[trigger] attributes[i] is Destination) by {
                        if i < n {
                            assert(rest[i] == attributes[i]);
                        }
                    }
                },
            }
        } else {
            assert(attributes[n] == NeighbourAttribute::Destination(attributes[n]->Destination_0));
        }
    }
}

proof fn lemma_last_mac(attributes: Seq<NeighbourAttribute>)
    ensures
        match last_mac(attributes) {
            Some(mac) => is_last_mac(attributes, mac),
            None => forall|i: int|
                0 <= i < attributes.len() ==> !is_six_octets(#[trigger] attributes[i]),
        },
    decreases attributes.len(),
{
    if attributes.len() > 0 {
        let n = attributes.len() - 1;
        let rest = attributes.drop_last();
        if !is_six_octets(attributes[n]) {
            lemma_last_mac(rest);
            match last_mac(rest) {
                Some(mac) => {
                    let i = choose|i: int|
                        0 <= i < rest.len() && is_six_octets(#[trigger] rest[i]) && names(
                            rest[i]->LinkLayerAddress_0@,
                            0,
                            mac,
                        ) && forall|j: int|
                            i < j < rest.len() ==> !is_six_octets(#[trigger] rest[j]);
                    assert(attributes[i] == rest[i]);
                    assert forall|j: int| i < j < attributes.len() implies !is_six_octets(
                        #[trigger] attributes[j],
                    ) by {
                        if j < n {
                            assert(rest[j] == attributes[j]);
                        }
                    }
                },
                None => {
                    assert forall|i: int| 0 <= i < attributes.len() implies !is_six_octets(
                        #[trigger] attributes[i],
                    ) by {
                        if i < n {
                            assert(rest[i] == attributes[i]);
                        }
                    }
                },
            }
        } else {
            assert(is_six_octets(attributes[n]));
        }
    }
}

/// A report about a neighbour names it by the last IPv4 address and the last
/// link-layer address of six octets in it, where it has both; no other report
/// names one.
pub proof fn law_neighbour_is_named_by_both_addresses(
    event: NetlinkEvent,
    r: Option<(Ipv4Addr, MacAddr)>,
)
    requires
        call_ensures(parse_neighbor_update, (&event,), r),
    ensures
        r matches Some((ip, mac)) ==> (event matches NetlinkEvent::NewNeighbour { attributes }
            && is_last_ip(attributes@, ip) && is_last_mac(attributes@, mac)),
        event matches NetlinkEvent::NewNeighbour { attributes } ==> r is None ==> (forall|i: int|
            0 <= i < attributes@.len() ==> !(#[trigger] attributes@[i] is Destination)) || (forall|
            i: int,
        |
            0 <= i < attributes@.len() ==> !is_six_octets(#[trigger] attributes@[i])),
{
    if let NetlinkEvent::NewNeighbour { attributes } = event {
        lemma_last_ip(attributes@);
        lemma_last_mac(attributes@);
    }
}

/// Whether an attribute of a link is an address of six octets.
pub open spec fn is_link_address(attribute: LinkAttribute) -> bool {
    attribute matches LinkAttribute::Address(octets) && octets@.len() == 6
}

proof fn lemma_first_mac(attributes: Seq<LinkAttribute>)
    ensures
        match first_mac(attributes) {
            Some(mac) => exists|i: int|
                0 <= i < attributes.len() && is_link_address(#[trigger] attributes[i]) && names(
                    attributes[i]->Address_0@,
                    0,
                    mac,
                ) && forall|j: int| 0 <= j < i ==> !is_link_address(#[trigger] attributes[j]),
            None => forall|i: int|
                0 <= i < attributes.len() ==> !is_link_address(#[trigger] attributes[i]),
        },
    decreases attributes.len(),
{
    if attributes.len() > 0 && !is_link_address(attributes[0]) {
        let rest = attributes.drop_first();
        lemma_first_mac(rest);
        match first_mac(rest) {
            Some(mac) => {
                let i = choose|i: int|
                    0 <= i < rest.len() && is_link_address(#[trigger] rest[i]) && names(
                        rest[i]->Address_0@,
                        0,
                        mac,
                    ) && forall|j: int| 0 <= j < i ==> !is_link_address(#[trigger] rest[j]);
                assert(attributes[i + 1] == rest[i]);
                assert forall|j: int| 0 <= j < i + 1 implies !is_link_address(
                    #[trigger] attributes[j],
                ) by {
                    if j > 0 {
                        assert(rest[j - 1] == attributes[j]);
                    }
                }
            },
            None => {
                assert forall|i: int| 0 <= i < attributes.len() implies !is_link_address(
                    #[trigger] attributes[i],
                ) by {
                    if i > 0 {
                        assert(rest[i - 1] == attributes[i]);
                    }
                }
            },
        }
    } else if attributes.len() > 0 {
        assert(is_link_address(attributes[0]));
    }
}

/// The link-layer address of a link is the first of six octets among its
/// attributes.
pub proof fn law_link_has_its_first_address(attributes: Vec<LinkAttribute>, r: Option<MacAddr>)
    requires
        call_ensures(find_mac_address_attribute, (&attributes,), r),
    ensures
        match r {
            Some(mac) => exists|i: int|
                0 <= i < attributes@.len() && is_link_address(#[trigger] attributes@[i]) && names(
                    attributes@[i]->Address_0@,
                    0,
                    mac,
                ) && forall|j: int| 0 <= j < i ==> !is_link_address(#[trigger] attributes@[j]),
            None => forall|i: int|
                0 <= i < attributes@.len() ==> !is_link_address(#[trigger] attributes@[i]),
        },
{
    lemma_first_mac(attributes@);
}

/// What the parent of the DHCP server passes on: names to the DNS forwarder,
/// neighbours to the server, signs of life to the watchdog. It ends with its
/// worker, with the service, and where the worker cannot be told.
pub proof fn law_server_parent_passes_on(
    event: ServerParentEvent,
    r: ServerParentAction,
    neighbour: Option<(Ipv4Addr, MacAddr)>,
)
    requires
        call_ensures(run_parent_dhcp_server_monitor, (event,), r),
        event matches ServerParentEvent::Netlink(report) ==> call_ensures(
            parse_neighbor_update,
            (&report,),
            neighbour,
        ),
    ensures
        match event {
            ServerParentEvent::Shutdown => r is Stop,
            ServerParentEvent::WorkerGone => r is Stop,
            ServerParentEvent::SendFailed => r is Stop,
            ServerParentEvent::Worker(DhcpServerWorkerToParentMsg::Heartbeat) => r is Heartbeat,
            ServerParentEvent::Worker(
                DhcpServerWorkerToParentMsg::RegisterLocalHost { name, ip },
            ) => r matches ServerParentAction::Announce(
                LocalHostEvent::Register { name: said, ip: at },
            ) && said@ == name@ && at == ip,
            ServerParentEvent::Worker(DhcpServerWorkerToParentMsg::DeregisterLocalHost { name }) =>
                r matches ServerParentAction::Announce(LocalHostEvent::Deregister { name: said })
                && said@ == name@,
            ServerParentEvent::Netlink(_) => match neighbour {
                Some((ip, mac)) => r matches ServerParentAction::Send(
                    DhcpServerParentToWorkerMsg::AddNeighbor { ip_address, mac_address },
                ) && ip_address == ip && mac_address == mac,
                None => r is Nothing,
            },
        },
{
}

/// The addresses of the machine may have changed when a link is reported, or an
/// address that came or went.
pub proof fn law_reports_about_addresses(event: NetlinkEvent, r: bool)
    requires
        call_ensures(is_address_or_link_event, (&event,), r),
    ensures
        r <==> match event {
            NetlinkEvent::NewLink => true,
            NetlinkEvent::NewAddress => true,
            NetlinkEvent::DelAddress => true,
            NetlinkEvent::NewRoute => false,
            NetlinkEvent::NewNeighbour { .. } => false,
            NetlinkEvent::Other => false,
        },
{
}

/// A service does not run until it is started, and does until it is stopped.
pub proof fn law_controller_starts_and_stops(
    fresh: ServiceController,
    runs: bool,
    started: &mut ServiceController,
    start: Result<(), ServiceError>,
    stopped: &mut ServiceController,
    stop: Result<(), ServiceError>,
)
    requires
        call_ensures(ServiceController::new, (), fresh),
        call_ensures(ServiceController::is_running, (&*started,), runs),
        call_ensures(ServiceController::start, (started,), start),
        call_ensures(ServiceController::stop, (stopped,), stop),
    ensures
        !fresh.running,
        runs == old(started).running,
        start is Ok <==> !old(started).running,
        final(started).running,
        stop is Ok <==> old(stopped).running,
        !final(stopped).running,
{
}

/// A new worker has no process and does not run.
pub proof fn law_new_worker_does_nothing(name: &'static str, r: ExternalWorker)
    requires
        call_ensures(ExternalWorker::new, (name,), r),
    ensures
        r.service_name@ == name@,
        !r.controller.running,
        r.child_pid == 0,
{
}

/// No host has a name at first.
pub proof fn law_no_host_has_a_name_at_first(r: LocalHosts, name: Seq<char>)
    requires
        call_ensures(LocalHosts::new, (), r),
    ensures
        !r@.contains_key(name),
{
}

/// The worker is told the resolvers as they are.
pub proof fn law_resolvers_are_told_as_they_are(servers: Vec<Ipv4Addr>, r: DnsParentToWorkerMsg)
    requires
        call_ensures(update_upstream_resolvers, (&servers,), r),
    ensures
        r matches DnsParentToWorkerMsg::SetUpstreamResolvers { servers: told } && told@
            == servers@,
{
}

} // verus!
