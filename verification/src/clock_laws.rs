//! How the clock of the router is kept right, told of what goes into the
//! functions and what comes out.

use crate::addr::Ipv4Addr;
use crate::dns_forwarder::is_valid_upstream_resolver;
use crate::ipc::SntpClientToParentMsg;
use crate::name_laws::{is_number, lemma_decimal};
use crate::sntp::{
    calculate_next_retry_delay, datetime_to_time_components, handle_time_server_resolved,
    is_in_calendar, is_valid_ntp_server_ip, is_valid_system_time, query_ntp_time,
    run_sntp_manager_loop, run_sntp_worker_loop, set_system_clock, time_in_reply, SntpParentAction,
    SntpParentEvent, SntpWorkerAction, SntpWorkerEvent, SyncScheduleResult, TimeComponents,
    TimeServerStep, UtcTime,
};
use crate::text::decimal;
use vstd::prelude::*;

verus! {

/// Whether `s` is the schedule after a failure, where the wait until now was
/// `current`: the next attempt comes after that wait, and the wait after the next
/// failure is twice as long, but a quarter of an hour at most.
pub open spec fn is_retry(s: SyncScheduleResult, current: u64) -> bool {
    &&& s.next_sync_delay == current
    &&& s.next_retry_delay == 2 * current && s.next_retry_delay <= 900_000_000_000
        || s.next_retry_delay == 900_000_000_000 && 2 * current >= 900_000_000_000
}

/// Whether `s` is the schedule after a success: the next synchronisation comes
/// after half an hour, and a first failure is followed by an attempt after a
/// minute.
pub open spec fn is_success(s: SyncScheduleResult) -> bool {
    s.next_sync_delay == 1_800_000_000_000 && s.next_retry_delay == 60_000_000_000
}

/// The wait after a failure is doubled, up to a quarter of an hour.
pub proof fn law_wait_is_doubled(current: u64, r: u64)
    requires
        call_ensures(calculate_next_retry_delay, (current,), r),
    ensures
        current <= 450_000_000_000 ==> r == 2 * current,
        current > 450_000_000_000 ==> r == 900_000_000_000,
{
}

/// The clock may be set to any time from late 2023 to the end of 2099, told in
/// seconds since 1970 and nanoseconds.
pub proof fn law_sane_times(seconds: i64, nanoseconds: i64, r: bool)
    requires
        call_ensures(is_valid_system_time, (seconds, nanoseconds), r),
    ensures
        r <==> 1_700_000_000 <= seconds && seconds <= 4_102_444_800 && 0 <= nanoseconds
            && nanoseconds < 1_000_000_000,
{
}

/// The clock is set to the time that it is told, and to no other, where that is a
/// time it may be set to.
pub proof fn law_clock_is_set_to_the_time_told(
    seconds: i64,
    nanoseconds: i64,
    r: SntpParentAction,
    sane: bool,
)
    requires
        call_ensures(set_system_clock, (seconds, nanoseconds), r),
        call_ensures(is_valid_system_time, (seconds, nanoseconds), sane),
    ensures
        sane ==> r == (SntpParentAction::SetClock { seconds, nanoseconds }),
        !sane ==> r == (SntpParentAction::RejectTime { seconds, nanoseconds }),
{
}

/// A time server is asked only at an address that a server on the Internet may
/// have, at port 123; otherwise the attempt has failed.
pub proof fn law_resolved_server_is_asked(
    result: Result<Ipv4Addr, String>,
    current: u64,
    r: TimeServerStep,
    valid: bool,
    same: bool,
    step: SntpWorkerAction,
)
    requires
        call_ensures(handle_time_server_resolved, (&result, current), r),
        result matches Ok(ip) ==> call_ensures(is_valid_upstream_resolver, (ip,), valid)
            && call_ensures(is_valid_ntp_server_ip, (ip,), same),
        call_ensures(run_sntp_worker_loop, (SntpWorkerEvent::Resolved(result), current), step),
    ensures
        result is Ok ==> same == valid,
        result is Ok && valid ==> (r matches TimeServerStep::Query(server) && server.ip
            == result->Ok_0 && server.port == 123),
        result is Ok && valid ==> (step matches SntpWorkerAction::Query(server) && server.ip
            == result->Ok_0 && server.port == 123),
        result is Err || !valid ==> (r matches TimeServerStep::Retry(s) && is_retry(s, current)),
        result is Err || !valid ==> (step matches SntpWorkerAction::Wait(s) && is_retry(
            s,
            current,
        )),
{
}

/// When it is time, the parent is asked to look the time server up; the worker
/// ends with its parent.
pub proof fn law_worker_asks_for_the_server(
    event: SntpWorkerEvent,
    current: u64,
    r: SntpWorkerAction,
)
    requires
        call_ensures(run_sntp_worker_loop, (event, current), r),
    ensures
        event is Tick ==> r == SntpWorkerAction::Send(SntpClientToParentMsg::ResolveTimeServer),
        event is ParentGone || event is SendFailed ==> r is Stop,
{
}

/// The time in a reply is told on as it is: the seconds, and the fraction in
/// whole microseconds. Where there is no reply, or none that the calendar
/// reaches, the attempt has failed and nothing is told.
pub proof fn law_time_in_the_reply_is_told(
    reply: Option<(u64, u32)>,
    current: u64,
    r: (Option<SntpClientToParentMsg>, SyncScheduleResult),
)
    requires
        call_ensures(query_ntp_time, (reply, current), r),
    ensures
        reply is None ==> r.0 is None && is_retry(r.1, current),
        reply matches Some((seconds, fraction)) ==> {
            &&& seconds <= 8_210_266_876_799 ==> {
                &&& is_success(r.1)
                &&& r.0 matches Some(
                    SntpClientToParentMsg::SetSystemTime { seconds: told, nanoseconds },
                )
                &&& told == seconds
                &&& nanoseconds % 1_000 == 0
                &&& nanoseconds * 0x1_0000_0000 <= fraction * 1_000_000_000
                &&& fraction * 1_000_000_000 < (nanoseconds + 1_000) * 0x1_0000_0000
            }
            &&& 8_210_266_876_799 < seconds < 0x1_0000_0000_0000_0000 - 8_334_601_228_800 ==> r.0
                is None && is_retry(r.1, current)
            &&& seconds >= 0x1_0000_0000_0000_0000 - 8_334_601_228_800 ==> r.0 is None
                && is_success(r.1)
        },
{
    if let Some((seconds, fraction)) = reply {
        let micros = fraction * 1_000_000 / 0x1_0000_0000;
        assert(micros * 0x1_0000_0000 <= fraction * 1_000_000 < (micros + 1) * 0x1_0000_0000);
        assert(0 <= micros < 1_000_000);
        lemma_signed(seconds);
    }
}

proof fn lemma_signed(n: u64)
    ensures
        n <= i64::MAX ==> n as i64 == n,
        n > i64::MAX ==> n as i64 == n - 0x1_0000_0000_0000_0000,
{
    assert(n > 0x7fff_ffff_ffff_ffff ==> n as i64 == n - 0x1_0000_0000_0000_0000) by (bit_vector);
}

/// The moment in a reply has the seconds of the reply, which may lie before 1970,
/// and its fraction in whole microseconds.
pub proof fn law_moment_of_a_reply(
    seconds: u64,
    fraction: u32,
    r: Result<UtcTime, String>,
)
    requires
        call_ensures(time_in_reply, (seconds, fraction), r),
    ensures
        r is Ok <==> seconds <= 8_210_266_876_799 || seconds >= 0x1_0000_0000_0000_0000
            - 8_334_601_228_800,
        r matches Ok(time) ==> time.seconds == (if seconds <= i64::MAX {
            seconds as int
        } else {
            seconds - 0x1_0000_0000_0000_0000
        }) && time.nanos % 1_000 == 0 && time.nanos
            * 0x1_0000_0000 <= fraction * 1_000_000_000 && fraction * 1_000_000_000 < (time.nanos
            + 1_000) * 0x1_0000_0000,
{
    let micros = fraction * 1_000_000 / 0x1_0000_0000;
    assert(micros * 0x1_0000_0000 <= fraction * 1_000_000 < (micros + 1) * 0x1_0000_0000);
    assert(0 <= micros < 1_000_000);
    lemma_signed(seconds);
}

/// A time that the calendar does not reach is told with its seconds and
/// nanoseconds.
pub proof fn law_wrong_times_are_told(seconds: u64, fraction: u32, r: Result<UtcTime, String>)
    requires
        call_ensures(time_in_reply, (seconds, fraction), r),
        r is Err,
        seconds <= i64::MAX,
    ensures
        exists|secs: Seq<char>, nanos: Seq<char>, n: int|
            {
                &&& #[trigger] is_number(secs, seconds as int)
                &&& #[trigger] is_number(nanos, n)
                &&& n % 1_000 == 0
                &&& n * 0x1_0000_0000 <= fraction * 1_000_000_000
                &&& fraction * 1_000_000_000 < (n + 1_000) * 0x1_0000_0000
                &&& r->Err_0@ == "Invalid timestamp: secs="@ + secs + ", nanos="@ + nanos
            },
{
    let micros = fraction * 1_000_000 / 0x1_0000_0000;
    assert(micros * 0x1_0000_0000 <= fraction * 1_000_000 < (micros + 1) * 0x1_0000_0000);
    assert(0 <= micros < 1_000_000);
    lemma_signed(seconds);
    let n = micros * 1_000;
    lemma_decimal(seconds as nat);
    lemma_decimal(n as nat);
    assert(is_number(decimal(seconds as nat), seconds as int));
    assert(is_number(decimal(n as nat), n as int));
}

/// A clock is set by the same moment: its parts add up to it, and none is set
/// before 1970.
pub proof fn law_parts_add_up_to_the_moment(time: UtcTime, r: Option<TimeComponents>)
    requires
        call_ensures(datetime_to_time_components, (time,), r),
        is_in_calendar(time.seconds as int, time.nanos as int),
    ensures
        time.seconds >= 0 ==> r is Some,
        r matches Some(parts) ==> parts.seconds >= 0 && 0 <= parts.nanoseconds < 1_000_000_000
            && parts.seconds * 1_000_000_000 + parts.nanoseconds == time.seconds * 1_000_000_000
            + time.nanos,
        r is None ==> time.seconds < 0,
{
}

/// A worker runs exactly while there is a lease on the WAN: one is started where
/// none runs, and the one that runs is terminated when the lease is lost, when it
/// is gone and at the end. The time server is looked up when the worker asks for
/// it, and the clock is set when the worker tells the time.
pub proof fn law_worker_runs_while_there_is_a_lease(
    child: &mut Option<u32>,
    event: SntpParentEvent,
    r: SntpParentAction,
    clock: SntpParentAction,
)
    requires
        call_ensures(run_sntp_manager_loop, (child, event), r),
        event matches SntpParentEvent::Worker(
            SntpClientToParentMsg::SetSystemTime { seconds, nanoseconds },
        ) ==> call_ensures(set_system_clock, (seconds, nanoseconds), clock),
    ensures
        match event {
            SntpParentEvent::Shutdown => r == (SntpParentAction::Stop { pid: *old(child) })
                && (*final(child)) is None,
            SntpParentEvent::LeaseSenderGone => r == (SntpParentAction::Stop { pid: *old(child) })
                && (*final(child)) is None,
            SntpParentEvent::LeaseChanged { has_wan: true } => *final(child) == *old(child) && (
            r is Spawn <==> (*old(child)) is None) && (r is Nothing <==> (*old(child)) is Some),
            SntpParentEvent::LeaseChanged { has_wan: false } => (*final(child)) is None && (
            match *old(child) {
                Some(pid) => r == (SntpParentAction::Terminate { pid }),
                None => r is Nothing,
            }),
            SntpParentEvent::Worker(SntpClientToParentMsg::ResolveTimeServer) => r
                is ResolveTimeServer && *final(child) == *old(child),
            SntpParentEvent::Worker(SntpClientToParentMsg::SetSystemTime { .. }) => r == clock
                && *final(child) == *old(child),
            SntpParentEvent::WorkerGone => (*final(child)) is None && (match *old(child) {
                Some(pid) => r == (SntpParentAction::Terminate { pid }),
                None => r is Nothing,
            }),
        },
{
}

} // verus!
