//! Keeping the clock of the router right.

use crate::addr::{Endpoint, Ipv4Addr};
use crate::dns_forwarder::{is_valid_upstream_resolver, may_be_upstream};
use crate::ipc::SntpClientToParentMsg;
use crate::text::{append_decimal, append_signed_decimal, decimal, signed_decimal};
use chrono::TimeZone;
use vstd::prelude::*;

verus! {

pub const NTP_PORT: u16 = 123;

/// The host that is asked for the time.
pub const TIME_SERVER_HOST: &'static str = "time.google.com";

/// From one synchronisation to the next, in nanoseconds.
pub const SYNC_INTERVAL: u64 = 1_800_000_000_000;

/// From a failed synchronisation to the next attempt, in nanoseconds, at first.
pub const RETRY_INTERVAL: u64 = 60_000_000_000;

/// From a failed synchronisation to the next attempt, in nanoseconds, at most.
pub const MAX_RETRY_INTERVAL: u64 = 900_000_000_000;

/// How long a time server may take to answer, in nanoseconds.
pub const QUERY_TIMEOUT: u64 = 3_000_000_000;

/// No clock is set back before this, in seconds since 1970.
pub const MIN_SANE_EPOCH_SECS: i64 = 1_700_000_000;

/// No clock is set beyond this, in seconds since 1970.
pub const MAX_SANE_EPOCH_SECS: i64 = 4_102_444_800;

/// Whether a time is one that the clock may be set to.
pub open spec fn is_sane_time(seconds: int, nanoseconds: int) -> bool {
    &&& MIN_SANE_EPOCH_SECS <= seconds <= MAX_SANE_EPOCH_SECS
    &&& 0 <= nanoseconds < 1_000_000_000
}

/// Whether a time is one that the clock may be set to.
pub fn is_valid_system_time(seconds: i64, nanoseconds: i64) -> (r: bool)
    ensures
        r == is_sane_time(seconds as int, nanoseconds as int),
{
    MIN_SANE_EPOCH_SECS <= seconds && seconds <= MAX_SANE_EPOCH_SECS && 0 <= nanoseconds
        && nanoseconds < 1_000_000_000
}

/// The wait after the next failure, where `current` follows this one.
pub open spec fn doubled_retry(current: u64) -> u64 {
    if 2 * current < MAX_RETRY_INTERVAL {
        (2 * current) as u64
    } else {
        MAX_RETRY_INTERVAL
    }
}

/// The wait after the next failure, where `current` follows this one.
pub fn calculate_next_retry_delay(current: u64) -> (r: u64)
    ensures
        r == doubled_retry(current),
{
    if current < MAX_RETRY_INTERVAL / 2 {
        2 * current
    } else {
        MAX_RETRY_INTERVAL
    }
}

/// A moment: whole seconds since 1970, and the nanoseconds on top of them. In a
/// leap second there are more than a second of those.
#[derive(Clone, Copy, Debug, PartialEq, Eq, Structural)]
pub struct UtcTime {
    pub seconds: i64,
    pub nanos: u32,
}

/// A time in the parts that a clock is set by.
#[derive(Clone, Copy, Debug, PartialEq, Eq, Structural)]
pub struct TimeComponents {
    pub seconds: i64,
    pub nanoseconds: i64,
}

/// Whether the calendar reaches a moment: it runs from the year -262143 to the
/// year 262142, and a leap second is the last of its minute.
pub open spec fn is_in_calendar(seconds: int, nanos: int) -> bool {
    &&& -8_334_601_228_800 <= seconds <= 8_210_266_876_799
    &&& nanos < 1_000_000_000 || (nanos < 2_000_000_000 && seconds % 60 == 59)
}

/// `chrono::TimeZone::timestamp_opt` for UTC: the moment is the given one, where
/// the calendar reaches it, and its seconds and nanoseconds are read back as
/// they were given.
#[verifier::external_body]
fn utc_timestamp(seconds: i64, nanos: u32) -> (r: Option<UtcTime>)
    ensures
        r is Some <==> is_in_calendar(seconds as int, nanos as int),
        r matches Some(time) ==> time == (UtcTime { seconds, nanos }),
{
    let time = chrono::Utc.timestamp_opt(seconds, nanos).single()?;
    Some(UtcTime { seconds: time.timestamp(), nanos: time.timestamp_subsec_nanos() })
}

/// `chrono::DateTime::signed_duration_since` the beginning of 1970, as a span
/// that is not negative: the seconds and the nanoseconds of the moment, with a
/// full second of nanoseconds carried over, or nothing before 1970.
#[verifier::external_body]
fn since_epoch(seconds: i64, nanos: u32) -> (r: Option<(i64, i64)>)
    requires
        is_in_calendar(seconds as int, nanos as int),
    ensures
        r is Some <==> seconds + nanos / 1_000_000_000 >= 0,
        r matches Some(span) ==> span.0 == seconds + nanos / 1_000_000_000,
        r matches Some(span) ==> span.1 == nanos % 1_000_000_000,
{
    let time = chrono::Utc.timestamp_opt(seconds, nanos).single()?;
    let span = time.signed_duration_since(chrono::DateTime::UNIX_EPOCH).to_std().ok()?;
    Some((span.as_secs() as i64, span.subsec_nanos() as i64))
}

/// `sntpc::fraction_to_microseconds`: the fraction of a second, counted in
/// steps of 2^-32, in whole microseconds.
#[verifier::external_body]
fn fraction_to_microseconds(fraction: u32) -> (r: u32)
    ensures
        r == fraction * 1_000_000 / 0x1_0000_0000,
{
    sntpc::fraction_to_microseconds(fraction)
}

impl UtcTime {
    /// Whether the calendar reaches the moment.
    pub open spec fn wf(self) -> bool {
        is_in_calendar(self.seconds as int, self.nanos as int)
    }

    /// The parts that a clock is set by, none before 1970.
    pub open spec fn components(self) -> Option<TimeComponents> {
        if self.seconds + self.nanos / 1_000_000_000 < 0 {
            None
        } else {
            Some(
                TimeComponents {
                    seconds: (self.seconds + self.nanos / 1_000_000_000) as i64,
                    nanoseconds: (self.nanos % 1_000_000_000) as i64,
                },
            )
        }
    }
}

/// Takes a moment apart into what a clock is set by.
pub fn datetime_to_time_components(time: UtcTime) -> (r: Option<TimeComponents>)
    requires
        time.wf(),
    ensures
        r == time.components(),
{
    match since_epoch(time.seconds, time.nanos) {
        Some((seconds, nanoseconds)) => Some(TimeComponents { seconds, nanoseconds }),
        None => None,
    }
}

/// The nanoseconds of a reply, counted in whole microseconds.
pub open spec fn reply_nanos(fraction: u32) -> int {
    fraction * 1_000_000 / 0x1_0000_0000 * 1_000
}

/// The moment that a time server names by seconds since 1970 and a fraction.
pub fn time_in_reply(seconds: u64, fraction: u32) -> (r: Result<UtcTime, String>)
    ensures
        match r {
            Ok(time) => {
                &&& time.wf()
                &&& time.seconds == seconds as i64
                &&& time.nanos == reply_nanos(fraction)
            },
            Err(text) => {
                &&& !is_in_calendar((seconds as i64) as int, reply_nanos(fraction))
                &&& text@ == "Invalid timestamp: secs="@ + signed_decimal((seconds as i64) as int)
                    + ", nanos="@ + decimal(reply_nanos(fraction) as nat)
            },
        },
        0 <= reply_nanos(fraction) < 1_000_000_000,
{
    let unix_secs: i64 = seconds as i64;
    let micros: u32 = fraction_to_microseconds(fraction);
    let nanos: u32 = micros * 1_000;
    match utc_timestamp(unix_secs, nanos) {
        Some(time) => Ok(time),
        None => {
            let mut text = "Invalid timestamp: secs=".to_owned();
            append_signed_decimal(&mut text, unix_secs);
            text.append(", nanos=");
            append_decimal(&mut text, nanos as u64);
            Err(text)
        },
    }
}

/// When to synchronise next, and how long to wait after the next failure.
#[derive(Clone, Copy, Debug, PartialEq, Eq, Structural)]
pub struct SyncScheduleResult {
    pub next_sync_delay: u64,
    pub next_retry_delay: u64,
}

/// The schedule after an attempt.
pub open spec fn schedule(succeeded: bool, current_retry_delay: u64) -> SyncScheduleResult {
    if succeeded {
        SyncScheduleResult { next_sync_delay: SYNC_INTERVAL, next_retry_delay: RETRY_INTERVAL }
    } else {
        SyncScheduleResult {
            next_sync_delay: current_retry_delay,
            next_retry_delay: doubled_retry(current_retry_delay),
        }
    }
}

fn next_schedule(succeeded: bool, current_retry_delay: u64) -> (r: SyncScheduleResult)
    ensures
        r == schedule(succeeded, current_retry_delay),
{
    if succeeded {
        SyncScheduleResult { next_sync_delay: SYNC_INTERVAL, next_retry_delay: RETRY_INTERVAL }
    } else {
        SyncScheduleResult {
            next_sync_delay: current_retry_delay,
            next_retry_delay: calculate_next_retry_delay(current_retry_delay),
        }
    }
}

/// Whether an address may be that of a time server on the Internet.
pub fn is_valid_ntp_server_ip(ip: Ipv4Addr) -> (r: bool)
    ensures
        r == may_be_upstream(ip),
{
    is_valid_upstream_resolver(ip)
}

/// What to do once the parent has looked the time server up.
#[derive(Clone, Copy, Debug, PartialEq, Eq, Structural)]
pub enum TimeServerStep {
    /// Ask this server.
    Query(Endpoint),
    /// Try again later.
    Retry(SyncScheduleResult),
}

/// Decides what to do once the parent has looked the time server up: a server
/// that cannot be one is not asked.
pub fn handle_time_server_resolved(
    result: &Result<Ipv4Addr, String>,
    current_retry_delay: u64,
) -> (r: TimeServerStep)
    ensures
        r == match *result {
            Ok(ip) if may_be_upstream(ip) => TimeServerStep::Query(Endpoint { ip, port: NTP_PORT }),
            _ => TimeServerStep::Retry(schedule(false, current_retry_delay)),
        },
{
    match result {
        Ok(ip) => {
            if is_valid_ntp_server_ip(*ip) {
                TimeServerStep::Query(Endpoint { ip: *ip, port: NTP_PORT })
            } else {
                TimeServerStep::Retry(next_schedule(false, current_retry_delay))
            }
        },
        Err(_) => TimeServerStep::Retry(next_schedule(false, current_retry_delay)),
    }
}

/// Whether a reply, the seconds and the fraction that a server names, is a
/// moment that the calendar reaches.
pub open spec fn is_usable_reply(reply: Option<(u64, u32)>) -> bool {
    reply matches Some((seconds, fraction)) && is_in_calendar(
        (seconds as i64) as int,
        reply_nanos(fraction),
    )
}

/// What to tell the parent after the reply of a time server, and when to
/// synchronise next. Where there is no reply, or none of use, the attempt has
/// failed.
pub fn query_ntp_time(reply: Option<(u64, u32)>, current_retry_delay: u64) -> (r: (
    Option<SntpClientToParentMsg>,
    SyncScheduleResult,
))
    ensures
        r.1 == schedule(is_usable_reply(reply), current_retry_delay),
        r.0 == if is_usable_reply(reply) && (reply->0).0 as i64 >= 0 {
            Some(
                SntpClientToParentMsg::SetSystemTime {
                    seconds: (reply->0).0 as i64,
                    nanoseconds: reply_nanos((reply->0).1) as i64,
                },
            )
        } else {
            None
        },
{
    if let Some((seconds, fraction)) = reply {
        if let Ok(time) = time_in_reply(seconds, fraction) {
            let message = match datetime_to_time_components(time) {
                Some(parts) => Some(
                    SntpClientToParentMsg::SetSystemTime {
                        seconds: parts.seconds,
                        nanoseconds: parts.nanoseconds,
                    },
                ),
                None => None,
            };
            return (message, next_schedule(true, current_retry_delay));
        }
    }
    (None, next_schedule(false, current_retry_delay))
}

/// What comes to the SNTP client.
pub enum SntpWorkerEvent {
    /// It is time to synchronise.
    Tick,
    /// The parent has looked the time server up.
    Resolved(Result<Ipv4Addr, String>),
    /// The parent closed the connection, or the connection failed.
    ParentGone,
    /// A request to the parent could not be sent.
    SendFailed,
}

/// What the SNTP client is to do.
#[derive(Clone, Copy, Debug, PartialEq, Eq, Structural)]
pub enum SntpWorkerAction {
    /// Ask the parent to look the time server up.
    Send(SntpClientToParentMsg),
    /// Ask this server for the time.
    Query(Endpoint),
    /// Set the timer.
    Wait(SyncScheduleResult),
    /// End.
    Stop,
}

/// What the SNTP client does on `event`.
pub open spec fn sntp_worker_action(
    event: SntpWorkerEvent,
    current_retry_delay: u64,
) -> SntpWorkerAction {
    match event {
        SntpWorkerEvent::Tick => SntpWorkerAction::Send(SntpClientToParentMsg::ResolveTimeServer),
        SntpWorkerEvent::Resolved(Ok(ip)) if may_be_upstream(ip) => SntpWorkerAction::Query(
            Endpoint { ip, port: NTP_PORT },
        ),
        SntpWorkerEvent::Resolved(_) => SntpWorkerAction::Wait(
            schedule(false, current_retry_delay),
        ),
        SntpWorkerEvent::ParentGone => SntpWorkerAction::Stop,
        SntpWorkerEvent::SendFailed => SntpWorkerAction::Stop,
    }
}

/// Decides what the SNTP client does when something happens.
pub fn run_sntp_worker_loop(event: SntpWorkerEvent, current_retry_delay: u64) -> (r:
    SntpWorkerAction)
    ensures
        r == sntp_worker_action(event, current_retry_delay),
{
    match event {
        SntpWorkerEvent::Tick => SntpWorkerAction::Send(SntpClientToParentMsg::ResolveTimeServer),
        SntpWorkerEvent::Resolved(result) => match handle_time_server_resolved(
            &result,
            current_retry_delay,
        ) {
            TimeServerStep::Query(server) => SntpWorkerAction::Query(server),
            TimeServerStep::Retry(schedule) => SntpWorkerAction::Wait(schedule),
        },
        SntpWorkerEvent::ParentGone => SntpWorkerAction::Stop,
        SntpWorkerEvent::SendFailed => SntpWorkerAction::Stop,
    }
}

/// What comes to the parent of the SNTP client.
pub enum SntpParentEvent {
    /// The service is shut down.
    Shutdown,
    /// The lease on the WAN has changed.
    LeaseChanged { has_wan: bool },
    /// Nobody will report changes of the lease any more.
    LeaseSenderGone,
    Worker(SntpClientToParentMsg),
    /// The worker closed the connection, or the connection failed.
    WorkerGone,
}

/// What the parent of the SNTP client is to do.
#[derive(Clone, Copy, Debug, PartialEq, Eq, Structural)]
pub enum SntpParentAction {
    Nothing,
    /// Start a worker.
    Spawn,
    /// Terminate the worker.
    Terminate { pid: u32 },
    /// Look the time server up and tell the worker.
    ResolveTimeServer,
    /// Set the clock.
    SetClock { seconds: i64, nanoseconds: i64 },
    /// Refuse to set the clock.
    RejectTime { seconds: i64, nanoseconds: i64 },
    /// Terminate the worker, where there is one, and end.
    Stop { pid: Option<u32> },
}

/// What the parent of the SNTP client does on `event`, where `child` is the
/// worker.
pub open spec fn sntp_action(child: Option<u32>, event: SntpParentEvent) -> SntpParentAction {
    match event {
        SntpParentEvent::Shutdown => SntpParentAction::Stop { pid: child },
        SntpParentEvent::LeaseSenderGone => SntpParentAction::Stop { pid: child },
        SntpParentEvent::LeaseChanged { has_wan } => if has_wan && child is None {
            SntpParentAction::Spawn
        } else if !has_wan && child is Some {
            SntpParentAction::Terminate { pid: child->0 }
        } else {
            SntpParentAction::Nothing
        },
        SntpParentEvent::Worker(SntpClientToParentMsg::SetSystemTime { seconds, nanoseconds }) =>
            if is_sane_time(seconds as int, nanoseconds as int) {
                SntpParentAction::SetClock { seconds, nanoseconds }
            } else {
                SntpParentAction::RejectTime { seconds, nanoseconds }
            },
        SntpParentEvent::Worker(SntpClientToParentMsg::ResolveTimeServer) =>
            SntpParentAction::ResolveTimeServer,
        SntpParentEvent::WorkerGone => match child {
            Some(pid) => SntpParentAction::Terminate { pid },
            None => SntpParentAction::Nothing,
        },
    }
}

/// The worker that is left once an action has been taken, before a new one is
/// spawned.
pub open spec fn child_after(child: Option<u32>, action: SntpParentAction) -> Option<u32> {
    match action {
        SntpParentAction::Terminate { .. } => None,
        SntpParentAction::Stop { .. } => None,
        _ => child,
    }
}

/// Decides whether the clock is set to a time.
pub fn set_system_clock(seconds: i64, nanoseconds: i64) -> (r: SntpParentAction)
    ensures
        r == if is_sane_time(seconds as int, nanoseconds as int) {
            SntpParentAction::SetClock { seconds, nanoseconds }
        } else {
            SntpParentAction::RejectTime { seconds, nanoseconds }
        },
{
    if !is_valid_system_time(seconds, nanoseconds) {
        return SntpParentAction::RejectTime { seconds, nanoseconds };
    }
    SntpParentAction::SetClock { seconds, nanoseconds }
}

/// Decides what the parent of the SNTP client does when something happens.
pub fn run_sntp_manager_loop(child: &mut Option<u32>, event: SntpParentEvent) -> (r:
    SntpParentAction)
    ensures
        r == sntp_action(*old(child), event),
        *final(child) == child_after(*old(child), r),
{
    let running = *child;
    let action = match event {
        SntpParentEvent::Shutdown => SntpParentAction::Stop { pid: running },
        SntpParentEvent::LeaseSenderGone => SntpParentAction::Stop { pid: running },
        SntpParentEvent::LeaseChanged { has_wan } => match running {
            None => if has_wan {
                SntpParentAction::Spawn
            } else {
                SntpParentAction::Nothing
            },
            Some(pid) => if has_wan {
                SntpParentAction::Nothing
            } else {
                SntpParentAction::Terminate { pid }
            },
        },
        SntpParentEvent::Worker(SntpClientToParentMsg::SetSystemTime { seconds, nanoseconds }) =>
            set_system_clock(seconds, nanoseconds),
        SntpParentEvent::Worker(SntpClientToParentMsg::ResolveTimeServer) =>
            SntpParentAction::ResolveTimeServer,
        SntpParentEvent::WorkerGone => match running {
            Some(pid) => SntpParentAction::Terminate { pid },
            None => SntpParentAction::Nothing,
        },
    };
    match action {
        SntpParentAction::Terminate { .. } => {
            *child = None;
        },
        SntpParentAction::Stop { .. } => {
            *child = None;
        },
        _ => {},
    }
    action
}

/// The clock is only ever set to a time between late 2023 and 2100.
pub proof fn law_clock_is_set_to_sane_time_only(child: Option<u32>, event: SntpParentEvent)
    ensures
        sntp_action(child, event) matches SntpParentAction::SetClock { seconds, nanoseconds }
            ==> is_sane_time(seconds as int, nanoseconds as int),
{
}

/// A worker is started only where none runs, and one that runs is terminated
/// when the lease on the WAN is lost, when it is gone, and at the end.
pub proof fn law_at_most_one_worker(child: Option<u32>, event: SntpParentEvent)
    ensures
        sntp_action(child, event) is Spawn ==> child is None,
        child matches Some(pid) ==> match event {
            SntpParentEvent::LeaseChanged { has_wan: false } => sntp_action(child, event) == (
            SntpParentAction::Terminate { pid }),
            SntpParentEvent::WorkerGone => sntp_action(child, event) == (
            SntpParentAction::Terminate { pid }),
            SntpParentEvent::Shutdown => sntp_action(child, event) == (SntpParentAction::Stop {
                pid: child,
            }),
            _ => true,
        },
{
}

/// After a success the next synchronisation is half an hour away; after each
/// failure the wait is no shorter than after the one before, and never longer
/// than a quarter of an hour.
pub proof fn law_retries_slow_down_to_limit(current: u64)
    requires
        RETRY_INTERVAL <= current <= MAX_RETRY_INTERVAL,
    ensures
        schedule(false, current).next_sync_delay == current,
        current <= schedule(false, current).next_retry_delay <= MAX_RETRY_INTERVAL,
        schedule(true, current).next_sync_delay == SYNC_INTERVAL,
        schedule(true, current).next_retry_delay == RETRY_INTERVAL,
{
}

} // verus!
