//! What the parent of the DNS forwarder tells it: the resolvers of the WAN
//! lease, and the names of the hosts on the LAN.

use crate::addr::Ipv4Addr;
use crate::assoc::{distinct, entries, lemma_entries, lemma_push, lemma_remove, stands_at};
use crate::dhcp_client::copy_addresses;
use crate::ipc::{DnsParentToWorkerMsg, LocalHostEvent};
use crate::wan::same_addresses;
use vstd::prelude::*;

verus! {

/// The names of the hosts on the LAN, each with its address.
#[derive(Clone, Debug)]
pub struct LocalHosts {
    hosts: Vec<(String, Ipv4Addr)>,
}

/// The names and addresses, with the names as sequences.
spec fn named(hosts: Seq<(String, Ipv4Addr)>) -> Seq<(Seq<char>, Ipv4Addr)> {
    hosts.map_values(|host: (String, Ipv4Addr)| (host.0@, host.1))
}

impl View for LocalHosts {
    type V = Map<Seq<char>, Ipv4Addr>;

    closed spec fn view(&self) -> Map<Seq<char>, Ipv4Addr> {
        entries(named(self.hosts@))
    }
}

impl LocalHosts {
    /// No name occurs twice.
    pub closed spec fn wf(self) -> bool {
        distinct(named(self.hosts@))
    }

    /// No hosts.
    pub fn new() -> (r: LocalHosts)
        ensures
            r.wf(),
            r@ == Map::<Seq<char>, Ipv4Addr>::empty(),
    {
        let r = LocalHosts { hosts: Vec::new() };
        assert(r@ =~= Map::empty());
        r
    }

    /// Where a name stands.
    fn find(&self, name: &String) -> (r: Option<usize>)
        requires
            self.wf(),
        ensures
            match r {
                Some(i) => i < self.hosts@.len() && self.hosts@[i as int].0@ == name@
                    && self@.contains_key(name@) && self@[name@] == self.hosts@[i as int].1,
                None => !self@.contains_key(name@),
            },
    {
        let ghost all = named(self.hosts@);
        proof {
            lemma_entries(all);
        }
        let mut i: usize = 0;
        while i < self.hosts.len()
            invariant
                i <= self.hosts.len(),
                all == named(self.hosts@),
                self@ == entries(all),
                forall|j: int|
                    0 <= j < all.len() ==> entries(all).contains_key((#[trigger] all[j]).0)
                        && entries(all)[all[j].0] == all[j].1,
                forall|j: int| 0 <= j < i ==> (#[trigger] all[j]).0 != name@,
            decreases self.hosts.len() - i,
        {
            assert(all[i as int] == (self.hosts@[i as int].0@, self.hosts@[i as int].1));
            if self.hosts[i].0 == *name {
                return Some(i);
            }
            i += 1;
        }
        None
    }

    /// The address of the host with a name.
    pub fn get(&self, name: &String) -> (r: Option<Ipv4Addr>)
        requires
            self.wf(),
        ensures
            r == if self@.contains_key(name@) {
                Some(self@[name@])
            } else {
                None
            },
    {
        match self.find(name) {
            Some(i) => Some(self.hosts[i].1),
            None => None,
        }
    }

    /// Forgets a name.
    pub fn deregister(&mut self, name: &String)
        requires
            old(self).wf(),
        ensures
            final(self).wf(),
            final(self)@ == old(self)@.remove(name@),
    {
        match self.find(name) {
            Some(i) => {
                let ghost before = self.hosts@;
                self.hosts.remove(i);
                proof {
                    assert(named(self.hosts@) =~= named(before).remove(i as int));
                    lemma_remove(named(before), i as int);
                }
            },
            None => {
                assert(self@ =~= self@.remove(name@));
            },
        }
    }

    /// Gives a name to a host, whoever had it before.
    pub fn register(&mut self, name: String, ip: Ipv4Addr)
        requires
            old(self).wf(),
        ensures
            final(self).wf(),
            final(self)@ == old(self)@.insert(name@, ip),
    {
        let ghost key = name@;
        self.deregister(&name);
        let ghost before = self.hosts@;
        self.hosts.push((name, ip));
        proof {
            lemma_push(named(before), (key, ip));
            assert(named(self.hosts@) =~= named(before).push((key, ip)));
            assert(self@ =~= old(self)@.insert(key, ip));
        }
    }

    /// Tells a worker about every host.
    fn registrations(&self) -> (r: Vec<DnsParentToWorkerMsg>)
        requires
            self.wf(),
        ensures
            announces(r@, self@),
    {
        let mut messages: Vec<DnsParentToWorkerMsg> = Vec::new();
        let n: usize = self.hosts.len();
        let mut i: usize = 0;
        while i < n
            invariant
                i <= n,
                n == self.hosts@.len(),
                messages@.len() == i,
                forall|j: int|
                    0 <= j < i ==> #[trigger] is_registration(
                        messages@[j],
                        self.hosts@[j].0@,
                        self.hosts@[j].1,
                    ),
            decreases n - i,
        {
            let name = self.hosts[i].0.clone();
            let ip = self.hosts[i].1;
            messages.push(DnsParentToWorkerMsg::RegisterLocalHost { name, ip });
            assert(is_registration(
                messages@[i as int],
                self.hosts@[i as int].0@,
                self.hosts@[i as int].1,
            ));
            i += 1;
        }
        proof {
            let all = named(self.hosts@);
            lemma_entries(all);
            assert forall|j: int| 0 <= j < messages@.len() implies names_one_of(
                #[trigger] messages@[j],
                self@,
            ) by {
                assert(all[j] == (self.hosts@[j].0@, self.hosts@[j].1));
                assert(is_registration(messages@[j], self.hosts@[j].0@, self.hosts@[j].1));
            }
            assert forall|name: Seq<char>| #[trigger] self@.contains_key(name) implies exists|
                j: int,
            |
                0 <= j < messages@.len() && #[trigger] is_registration(
                    messages@[j],
                    name,
                    self@[name],
                ) by {
                let j = choose|j: int| stands_at(all, name, j);
                assert(all[j] == (self.hosts@[j].0@, self.hosts@[j].1));
                assert(is_registration(messages@[j], self.hosts@[j].0@, self.hosts@[j].1));
                assert(is_registration(messages@[j], name, self@[name]));
            }
            assert forall|i: int, j: int|
                0 <= i < j < messages@.len() implies !same_registration(
                #[trigger] messages@[i],
                #[trigger] messages@[j],
            ) by {
                assert(is_registration(messages@[i], self.hosts@[i].0@, self.hosts@[i].1));
                assert(is_registration(messages@[j], self.hosts@[j].0@, self.hosts@[j].1));
                assert(all[i].0 != all[j].0);
            }
        }
        messages
    }
}

/// Whether a message tells the worker that `name` is the host at `ip`.
pub open spec fn is_registration(msg: DnsParentToWorkerMsg, name: Seq<char>, ip: Ipv4Addr) -> bool {
    msg matches DnsParentToWorkerMsg::RegisterLocalHost { name: n, ip: i } && n@ == name && i == ip
}

/// Whether two messages are about the same name.
pub open spec fn same_registration(a: DnsParentToWorkerMsg, b: DnsParentToWorkerMsg) -> bool {
    match (a, b) {
        (
            DnsParentToWorkerMsg::RegisterLocalHost { name: x, .. },
            DnsParentToWorkerMsg::RegisterLocalHost { name: y, .. },
        ) => x@ == y@,
        _ => false,
    }
}

/// Whether a message tells the worker about one of these hosts.
pub open spec fn names_one_of(msg: DnsParentToWorkerMsg, hosts: Map<Seq<char>, Ipv4Addr>) -> bool {
    msg matches DnsParentToWorkerMsg::RegisterLocalHost { name, ip } && hosts.contains_key(name@)
        && hosts[name@] == ip
}

/// Whether the messages tell a worker about these hosts, about each once, and
/// about nothing else.
pub open spec fn announces(
    messages: Seq<DnsParentToWorkerMsg>,
    hosts: Map<Seq<char>, Ipv4Addr>,
) -> bool {
    &&& forall|j: int| 0 <= j < messages.len() ==> names_one_of(#[trigger] messages[j], hosts)
    &&& forall|name: Seq<char>| #[trigger]
        hosts.contains_key(name) ==> exists|j: int|
            0 <= j < messages.len() && #[trigger] is_registration(messages[j], name, hosts[name])
    &&& forall|i: int, j: int|
        0 <= i < j < messages.len() ==> !same_registration(
            #[trigger] messages[i],
            #[trigger] messages[j],
        )
}

/// What the parent of a DNS forwarder remembers: the process of the worker, and
/// the resolvers that the worker was told last.
pub struct DnsMonitor {
    pub child_pid: u32,
    pub last_dns_servers: Vec<Ipv4Addr>,
}

/// Whether a message tells the worker to use these resolvers.
pub open spec fn sets_resolvers(msg: DnsParentToWorkerMsg, servers: Seq<Ipv4Addr>) -> bool {
    msg matches DnsParentToWorkerMsg::SetUpstreamResolvers { servers: s } && s@ == servers
}

/// The message that tells the worker which resolvers to use.
pub fn update_upstream_resolvers(servers: &Vec<Ipv4Addr>) -> (r: DnsParentToWorkerMsg)
    ensures
        sets_resolvers(r, servers@),
{
    DnsParentToWorkerMsg::SetUpstreamResolvers { servers: copy_addresses(servers) }
}

/// Whether a new worker is told what it needs: the resolvers, where there are
/// any, and every host.
pub open spec fn synced(
    messages: Seq<DnsParentToWorkerMsg>,
    servers: Seq<Ipv4Addr>,
    hosts: Map<Seq<char>, Ipv4Addr>,
) -> bool {
    if servers.len() == 0 {
        announces(messages, hosts)
    } else {
        &&& messages.len() > 0
        &&& sets_resolvers(messages[0], servers)
        &&& announces(messages.skip(1), hosts)
    }
}

/// Starts to look after a new worker: says what it is told at once.
pub fn initial_sync(child_pid: u32, servers: &Vec<Ipv4Addr>, hosts: &LocalHosts) -> (r: (
    DnsMonitor,
    Vec<DnsParentToWorkerMsg>,
))
    requires
        hosts.wf(),
    ensures
        r.0.child_pid == child_pid,
        r.0.last_dns_servers@ == servers@,
        synced(r.1@, servers@, hosts@),
{
    let monitor = DnsMonitor { child_pid, last_dns_servers: copy_addresses(servers) };
    let mut registrations = hosts.registrations();
    if servers.len() == 0 {
        return (monitor, registrations);
    }
    let ghost announced = registrations@;
    let mut messages: Vec<DnsParentToWorkerMsg> = Vec::new();
    messages.push(update_upstream_resolvers(servers));
    messages.append(&mut registrations);
    assert(messages@.skip(1) =~= announced);
    (monitor, messages)
}

/// What comes to the parent of the DNS forwarder.
pub enum DnsParentEvent {
    /// The service is shut down.
    Shutdown,
    /// The worker is alive.
    Heartbeat,
    /// The worker closed the connection, or the connection failed.
    WorkerGone,
    /// The lease on the WAN has changed, and names these resolvers.
    LeaseChanged { servers: Vec<Ipv4Addr> },
    /// Nobody will report changes of the lease any more.
    LeaseSenderGone,
    /// A host came by a name, or lost it.
    Host(LocalHostEvent),
    /// New resolvers could not be sent to the worker.
    SendFailed,
}

/// What the parent of the DNS forwarder is to do.
pub enum DnsParentAction {
    Nothing,
    /// Report that the worker is alive.
    Heartbeat,
    /// Send a message to the worker; where that fails, go on.
    Send(DnsParentToWorkerMsg),
    /// Send a message to the worker; where that fails, it is an event.
    SendOrStop(DnsParentToWorkerMsg),
    /// Terminate the process of the worker, and end.
    Stop { pid: u32 },
}

/// The hosts after an event.
pub open spec fn hosts_after(
    hosts: Map<Seq<char>, Ipv4Addr>,
    event: DnsParentEvent,
) -> Map<Seq<char>, Ipv4Addr> {
    match event {
        DnsParentEvent::Host(LocalHostEvent::Register { name, ip }) => hosts.insert(name@, ip),
        DnsParentEvent::Host(LocalHostEvent::Deregister { name }) => hosts.remove(name@),
        _ => hosts,
    }
}

/// The resolvers that the worker has been told after an event.
pub open spec fn resolvers_after(last: Seq<Ipv4Addr>, event: DnsParentEvent) -> Seq<Ipv4Addr> {
    match event {
        DnsParentEvent::LeaseChanged { servers } => servers@,
        _ => last,
    }
}

/// Whether the parent ends after an event.
pub open spec fn ends_monitor(event: DnsParentEvent) -> bool {
    event is Shutdown || event is WorkerGone || event is LeaseSenderGone || event is SendFailed
}

/// Whether `action` is what the parent does on `event`, where the worker runs in
/// the process `child_pid` and was told the resolvers `last`.
pub open spec fn dns_event_handled(
    child_pid: u32,
    last: Seq<Ipv4Addr>,
    event: DnsParentEvent,
    action: DnsParentAction,
) -> bool {
    match event {
        DnsParentEvent::Shutdown => action == DnsParentAction::Stop { pid: child_pid },
        DnsParentEvent::WorkerGone => action == DnsParentAction::Stop { pid: child_pid },
        DnsParentEvent::LeaseSenderGone => action == DnsParentAction::Stop { pid: child_pid },
        DnsParentEvent::SendFailed => action == DnsParentAction::Stop { pid: child_pid },
        DnsParentEvent::Heartbeat => action is Heartbeat,
        DnsParentEvent::LeaseChanged { servers } => if servers@ == last {
            action is Nothing
        } else {
            action matches DnsParentAction::SendOrStop(msg) && sets_resolvers(msg, servers@)
        },
        DnsParentEvent::Host(LocalHostEvent::Register { name, ip }) => action matches
            DnsParentAction::Send(msg) && is_registration(msg, name@, ip),
        DnsParentEvent::Host(LocalHostEvent::Deregister { name }) => action matches
            DnsParentAction::Send(msg) && (msg matches DnsParentToWorkerMsg::DeregisterLocalHost {
            name: n,
        } && n@ == name@),
    }
}

/// Decides what the parent of the DNS forwarder does when something happens.
pub fn run_parent_dns_monitor(
    monitor: &mut DnsMonitor,
    hosts: &mut LocalHosts,
    event: DnsParentEvent,
) -> (r: DnsParentAction)
    requires
        old(hosts).wf(),
    ensures
        final(hosts).wf(),
        final(hosts)@ == hosts_after(old(hosts)@, event),
        final(monitor).child_pid == old(monitor).child_pid,
        final(monitor).last_dns_servers@ == resolvers_after(
            old(monitor).last_dns_servers@,
            event,
        ),
        dns_event_handled(old(monitor).child_pid, old(monitor).last_dns_servers@, event, r),
{
    match event {
        DnsParentEvent::Shutdown => DnsParentAction::Stop { pid: monitor.child_pid },
        DnsParentEvent::WorkerGone => DnsParentAction::Stop { pid: monitor.child_pid },
        DnsParentEvent::LeaseSenderGone => DnsParentAction::Stop { pid: monitor.child_pid },
        DnsParentEvent::SendFailed => DnsParentAction::Stop { pid: monitor.child_pid },
        DnsParentEvent::Heartbeat => DnsParentAction::Heartbeat,
        DnsParentEvent::LeaseChanged { servers } => {
            if same_addresses(&servers, &monitor.last_dns_servers) {
                return DnsParentAction::Nothing;
            }
            let msg = update_upstream_resolvers(&servers);
            monitor.last_dns_servers = servers;
            DnsParentAction::SendOrStop(msg)
        },
        DnsParentEvent::Host(LocalHostEvent::Register { name, ip }) => {
            let msg = DnsParentToWorkerMsg::RegisterLocalHost { name: name.clone(), ip };
            hosts.register(name, ip);
            DnsParentAction::Send(msg)
        },
        DnsParentEvent::Host(LocalHostEvent::Deregister { name }) => {
            hosts.deregister(&name);
            DnsParentAction::Send(DnsParentToWorkerMsg::DeregisterLocalHost { name })
        },
    }
}

/// A host that has come by a name is made known to every worker that is started
/// afterwards.
pub proof fn law_new_worker_learns_registered_host(
    hosts: Map<Seq<char>, Ipv4Addr>,
    name: String,
    ip: Ipv4Addr,
    servers: Seq<Ipv4Addr>,
    messages: Seq<DnsParentToWorkerMsg>,
)
    requires
        synced(
            messages,
            servers,
            hosts_after(hosts, DnsParentEvent::Host(LocalHostEvent::Register { name, ip })),
        ),
    ensures
        exists|j: int|
            0 <= j < messages.len() && #[trigger] is_registration(messages[j], name@, ip),
{
    let after = hosts.insert(name@, ip);
    assert(after.contains_key(name@));
    if servers.len() == 0 {
        assert(announces(messages, after));
    } else {
        let rest = messages.skip(1);
        let j = choose|j: int|
            0 <= j < rest.len() && #[trigger] is_registration(rest[j], name@, after[name@]);
        assert(messages[j + 1] == rest[j]);
        assert(is_registration(messages[j + 1], name@, ip));
    }
}

/// A name that has been given up is not made known to any worker that is
/// started afterwards.
pub proof fn law_new_worker_is_not_told_lost_name(
    hosts: Map<Seq<char>, Ipv4Addr>,
    name: String,
    servers: Seq<Ipv4Addr>,
    messages: Seq<DnsParentToWorkerMsg>,
    ip: Ipv4Addr,
    j: int,
)
    requires
        synced(
            messages,
            servers,
            hosts_after(hosts, DnsParentEvent::Host(LocalHostEvent::Deregister { name })),
        ),
        0 <= j < messages.len(),
    ensures
        !is_registration(messages[j], name@, ip),
{
    let after = hosts.remove(name@);
    if servers.len() == 0 {
        assert(names_one_of(messages[j], after));
    } else if j > 0 {
        let rest = messages.skip(1);
        assert(rest[j - 1] == messages[j]);
        assert(names_one_of(rest[j - 1], after));
    }
}

/// A change of the lease that leaves the resolvers as they are is not passed on
/// to the worker.
pub proof fn law_unchanged_resolvers_are_not_sent_again(
    child_pid: u32,
    last: Seq<Ipv4Addr>,
    servers: Vec<Ipv4Addr>,
    action: DnsParentAction,
)
    requires
        dns_event_handled(
            child_pid,
            resolvers_after(last, DnsParentEvent::LeaseChanged { servers }),
            DnsParentEvent::LeaseChanged { servers },
            action,
        ),
    ensures
        action is Nothing,
{
}

/// The resolvers that a message tells the worker to use.
pub open spec fn resolvers_in(msg: DnsParentToWorkerMsg) -> Seq<Seq<Ipv4Addr>> {
    match msg {
        DnsParentToWorkerMsg::SetUpstreamResolvers { servers } => seq![servers@],
        _ => Seq::empty(),
    }
}

/// The resolvers that the messages tell the worker to use, one list after the
/// other.
pub open spec fn resolvers_told(messages: Seq<DnsParentToWorkerMsg>) -> Seq<Seq<Ipv4Addr>>
    decreases messages.len(),
{
    if messages.len() == 0 {
        Seq::empty()
    } else {
        resolvers_told(messages.drop_last()) + resolvers_in(messages.last())
    }
}

/// What an action writes to the worker.
pub open spec fn written(action: DnsParentAction) -> Seq<DnsParentToWorkerMsg> {
    match action {
        DnsParentAction::Send(msg) => seq![msg],
        DnsParentAction::SendOrStop(msg) => seq![msg],
        _ => Seq::empty(),
    }
}

/// What is written to the worker in all: what it is told at once, and then what
/// the actions write.
pub open spec fn all_written(
    first: Seq<DnsParentToWorkerMsg>,
    actions: Seq<DnsParentAction>,
) -> Seq<DnsParentToWorkerMsg>
    decreases actions.len(),
{
    if actions.len() == 0 {
        first
    } else {
        all_written(first, actions.drop_last()) + written(actions.last())
    }
}

/// The resolvers of the lease, at first and after each change.
pub open spec fn lease_lists(
    initial: Seq<Ipv4Addr>,
    events: Seq<DnsParentEvent>,
) -> Seq<Seq<Ipv4Addr>>
    decreases events.len(),
{
    if events.len() == 0 {
        seq![initial]
    } else {
        let lists = lease_lists(initial, events.drop_last());
        match events.last() {
            DnsParentEvent::LeaseChanged { servers } => lists.push(servers@),
            _ => lists,
        }
    }
}

/// The last of the lists, or the empty list where there is none.
pub open spec fn last_list(lists: Seq<Seq<Ipv4Addr>>) -> Seq<Ipv4Addr> {
    if lists.len() == 0 {
        Seq::empty()
    } else {
        lists.last()
    }
}

/// The lists that differ from the one that was picked last before them, the
/// first from the empty list.
pub open spec fn changes(lists: Seq<Seq<Ipv4Addr>>) -> Seq<Seq<Ipv4Addr>>
    decreases lists.len(),
{
    if lists.len() == 0 {
        Seq::empty()
    } else {
        let picked = changes(lists.drop_last());
        if lists.last() == last_list(picked) {
            picked
        } else {
            picked.push(lists.last())
        }
    }
}

/// The resolvers that the worker has been told after the events.
pub open spec fn resolvers_after_all(
    initial: Seq<Ipv4Addr>,
    events: Seq<DnsParentEvent>,
) -> Seq<Ipv4Addr>
    decreases events.len(),
{
    if events.len() == 0 {
        initial
    } else {
        resolvers_after(resolvers_after_all(initial, events.drop_last()), events.last())
    }
}

/// Whether the actions are what the parent does on the events, one after the
/// other.
pub open spec fn monitored(
    child_pid: u32,
    initial: Seq<Ipv4Addr>,
    events: Seq<DnsParentEvent>,
    actions: Seq<DnsParentAction>,
) -> bool {
    &&& actions.len() == events.len()
    &&& forall|i: int|
        0 <= i < events.len() ==> dns_event_handled(
            child_pid,
            resolvers_after_all(initial, events.take(i)),
            #[trigger] events[i],
            actions[i],
        )
}

proof fn lemma_resolvers_told_join(a: Seq<DnsParentToWorkerMsg>, b: Seq<DnsParentToWorkerMsg>)
    ensures
        resolvers_told(a + b) == resolvers_told(a) + resolvers_told(b),
    decreases b.len(),
{
    if b.len() == 0 {
        assert(a + b =~= a);
        assert(resolvers_told(b) =~= Seq::empty());
        assert(resolvers_told(a) + resolvers_told(b) =~= resolvers_told(a));
    } else {
        lemma_resolvers_told_join(a, b.drop_last());
        assert((a + b).drop_last() =~= a + b.drop_last());
        assert(resolvers_told(a + b) =~= resolvers_told(a) + resolvers_told(b));
    }
}

proof fn lemma_announcements_tell_no_resolvers(
    messages: Seq<DnsParentToWorkerMsg>,
    hosts: Map<Seq<char>, Ipv4Addr>,
)
    requires
        forall|j: int| 0 <= j < messages.len() ==> names_one_of(#[trigger] messages[j], hosts),
    ensures
        resolvers_told(messages) == Seq::<Seq<Ipv4Addr>>::empty(),
    decreases messages.len(),
{
    if messages.len() > 0 {
        assert(names_one_of(messages[messages.len() - 1], hosts));
        lemma_announcements_tell_no_resolvers(messages.drop_last(), hosts);
        assert(resolvers_told(messages) =~= Seq::empty());
    }
}

proof fn lemma_first_resolvers_told(
    messages: Seq<DnsParentToWorkerMsg>,
    servers: Seq<Ipv4Addr>,
    hosts: Map<Seq<char>, Ipv4Addr>,
)
    requires
        synced(messages, servers, hosts),
    ensures
        resolvers_told(messages) == changes(seq![servers]),
{
    reveal_with_fuel(changes, 2);
    reveal_with_fuel(resolvers_told, 2);
    assert(seq![servers].drop_last() =~= Seq::empty());
    if servers.len() == 0 {
        lemma_announcements_tell_no_resolvers(messages, hosts);
        assert(servers =~= Seq::empty());
    } else {
        let head = seq![messages[0]];
        let rest = messages.skip(1);
        lemma_announcements_tell_no_resolvers(rest, hosts);
        lemma_resolvers_told_join(head, rest);
        assert(messages =~= head + rest);
        assert(head.drop_last() =~= Seq::empty());
        assert(resolvers_told(messages) =~= seq![servers]);
        assert(changes(seq![servers]) =~= seq![servers]);
    }
}

proof fn lemma_last_change(lists: Seq<Seq<Ipv4Addr>>)
    ensures
        last_list(changes(lists)) == last_list(lists),
{
}

proof fn lemma_last_lease_list(initial: Seq<Ipv4Addr>, events: Seq<DnsParentEvent>)
    ensures
        lease_lists(initial, events).len() > 0,
        last_list(lease_lists(initial, events)) == resolvers_after_all(initial, events),
    decreases events.len(),
{
    if events.len() > 0 {
        lemma_last_lease_list(initial, events.drop_last());
    }
}

proof fn lemma_successive_changes_differ(lists: Seq<Seq<Ipv4Addr>>, i: int)
    requires
        0 <= i < changes(lists).len() - 1,
    ensures
        changes(lists)[i] != changes(lists)[i + 1],
    decreases lists.len(),
{
    let picked = changes(lists.drop_last());
    if i < picked.len() - 1 {
        lemma_successive_changes_differ(lists.drop_last(), i);
    }
}

/// The worker is told the resolvers of the lease that it is started with, where
/// there are any, and then the resolvers after each change of the lease that
/// differ from those it was told last; it is told no others. So it is never told
/// the same resolvers twice in a row.
pub proof fn law_worker_is_told_each_change_of_resolvers(
    child_pid: u32,
    initial: Seq<Ipv4Addr>,
    hosts: Map<Seq<char>, Ipv4Addr>,
    first: Seq<DnsParentToWorkerMsg>,
    events: Seq<DnsParentEvent>,
    actions: Seq<DnsParentAction>,
)
    requires
        synced(first, initial, hosts),
        monitored(child_pid, initial, events, actions),
    ensures
        resolvers_told(all_written(first, actions)) == changes(lease_lists(initial, events)),
        forall|i: int|
            #![trigger resolvers_told(all_written(first, actions))[i]]
            0 <= i < resolvers_told(all_written(first, actions)).len() - 1
                ==> resolvers_told(all_written(first, actions))[i] != resolvers_told(
                all_written(first, actions),
            )[i + 1],
    decreases events.len(),
{
    let told = resolvers_told(all_written(first, actions));
    if events.len() == 0 {
        lemma_first_resolvers_told(first, initial, hosts);
    } else {
        let last = events.len() - 1;
        let before = events.drop_last();
        assert forall|i: int| 0 <= i < before.len() implies dns_event_handled(
            child_pid,
            resolvers_after_all(initial, before.take(i)),
            #[trigger] before[i],
            actions.drop_last()[i],
        ) by {
            assert(before.take(i) =~= events.take(i));
            assert(before[i] == events[i]);
        }
        law_worker_is_told_each_change_of_resolvers(
            child_pid,
            initial,
            hosts,
            first,
            before,
            actions.drop_last(),
        );
        lemma_last_lease_list(initial, before);
        lemma_last_change(lease_lists(initial, before));
        assert(events.take(last) =~= before);
        assert(dns_event_handled(
            child_pid,
            resolvers_after_all(initial, before),
            events[last],
            actions[last],
        ));
        lemma_resolvers_told_join(
            all_written(first, actions.drop_last()),
            written(actions.last()),
        );
        reveal_with_fuel(resolvers_told, 2);
        let lists = lease_lists(initial, before);
        if let DnsParentEvent::LeaseChanged { servers } = events[last] {
            assert(lists.push(servers@).drop_last() =~= lists);
        }
        assert(told =~= changes(lease_lists(initial, events)));
    }
    assert forall|i: int|
        #![trigger told[i]]
        0 <= i < told.len() - 1 implies told[i] != told[i + 1] by {
        lemma_successive_changes_differ(lease_lists(initial, events), i);
    }
}

/// The parent ends when the service is shut down, when the worker or whoever
/// reports the lease is gone, and when new resolvers could not be sent, and at
/// no other time; whenever it ends, it terminates its worker.
pub proof fn law_monitor_ends_with_its_worker(
    child_pid: u32,
    initial: Seq<Ipv4Addr>,
    events: Seq<DnsParentEvent>,
    actions: Seq<DnsParentAction>,
    i: int,
)
    requires
        monitored(child_pid, initial, events, actions),
        0 <= i < events.len(),
    ensures
        ends_monitor(events[i]) ==> actions[i] == (DnsParentAction::Stop { pid: child_pid }),
        !ends_monitor(events[i]) ==> !(actions[i] is Stop),
{
    assert(dns_event_handled(
        child_pid,
        resolvers_after_all(initial, events.take(i)),
        events[i],
        actions[i],
    ));
}

} // verus!
