use chrono::TimeZone;
use trimrouter::addr::{Endpoint, Ipv4Addr};
use trimrouter::ipc::SntpClientToParentMsg;
use trimrouter::sntp::{
    calculate_next_retry_delay, datetime_to_time_components, handle_time_server_resolved,
    is_valid_system_time, query_ntp_time, run_sntp_manager_loop, run_sntp_worker_loop,
    time_in_reply, SntpParentAction, SntpParentEvent, SntpWorkerAction, SntpWorkerEvent,
    SyncScheduleResult, TimeComponents, TimeServerStep, UtcTime, MAX_RETRY_INTERVAL,
    MAX_SANE_EPOCH_SECS, MIN_SANE_EPOCH_SECS, RETRY_INTERVAL, SYNC_INTERVAL,
};

const SECOND: u64 = 1_000_000_000;

#[test]
fn test_is_valid_system_time_valid_bounds() {
    assert!(is_valid_system_time(1_720_000_000, 0));
    assert!(is_valid_system_time(2_011_000_000, 500_000_000));
    assert!(is_valid_system_time(MAX_SANE_EPOCH_SECS, 999_999_999));
    assert!(is_valid_system_time(MIN_SANE_EPOCH_SECS, 0));
}

#[test]
fn test_is_valid_system_time_rejects_insane_timestamps() {
    assert!(!is_valid_system_time(0, 0));
    assert!(!is_valid_system_time(-100, 0));
    assert!(!is_valid_system_time(1_000_000_000, 0));

    assert!(!is_valid_system_time(5_000_000_000, 0));
    assert!(!is_valid_system_time(i64::MAX, 0));

    assert!(!is_valid_system_time(1_720_000_000, 1_000_000_000));
    assert!(!is_valid_system_time(1_720_000_000, -1));
}

#[test]
fn test_handle_time_server_resolved_error_schedules_retry() {
    let retry_delay = 60 * SECOND;

    let step = handle_time_server_resolved(&Err("DNS query failed".to_string()), retry_delay);

    assert_eq!(
        step,
        TimeServerStep::Retry(SyncScheduleResult {
            next_sync_delay: 60 * SECOND,
            next_retry_delay: 120 * SECOND,
        })
    );
}

#[test]
fn test_datetime_to_time_components_conversion() {
    let dt = chrono::Utc.with_ymd_and_hms(2024, 1, 1, 0, 0, 0).unwrap();
    let components = datetime_to_time_components(UtcTime {
        seconds: dt.timestamp(),
        nanos: dt.timestamp_subsec_nanos(),
    });
    assert_eq!(
        components,
        Some(TimeComponents {
            seconds: 1704067200,
            nanoseconds: 0,
        })
    );

    let pre_epoch_dt = chrono::Utc
        .with_ymd_and_hms(1969, 12, 31, 23, 59, 59)
        .unwrap();
    assert_eq!(
        datetime_to_time_components(UtcTime {
            seconds: pre_epoch_dt.timestamp(),
            nanos: pre_epoch_dt.timestamp_subsec_nanos(),
        }),
        None
    );
}

#[test]
fn leap_second_is_carried_over() {
    assert_eq!(
        datetime_to_time_components(UtcTime {
            seconds: 59,
            nanos: 1_250_000_000,
        }),
        Some(TimeComponents {
            seconds: 60,
            nanoseconds: 250_000_000,
        })
    );
}

#[test]
fn reply_is_read_in_microseconds() {
    assert_eq!(
        time_in_reply(1_720_000_000, 0x8000_0000),
        Ok(UtcTime {
            seconds: 1_720_000_000,
            nanos: 500_000_000,
        })
    );
    assert_eq!(
        time_in_reply(1_720_000_000, u32::MAX),
        Ok(UtcTime {
            seconds: 1_720_000_000,
            nanos: 999_999_000,
        })
    );
}

#[test]
fn calendar_has_its_limits() {
    assert!(time_in_reply(8_210_266_876_799, 0).is_ok());
    assert_eq!(
        time_in_reply(8_210_266_876_800, 0x8000_0000),
        Err("Invalid timestamp: secs=8210266876800, nanos=500000000".to_string())
    );
    // A number of seconds that only fits where it is read as negative.
    assert!(time_in_reply((-8_334_601_228_800i64) as u64, 0).is_ok());
    assert_eq!(
        time_in_reply((-8_334_601_228_801i64) as u64, 0),
        Err("Invalid timestamp: secs=-8334601228801, nanos=0".to_string())
    );
}

#[test]
fn server_is_asked_at_the_time_port() {
    let ip = Ipv4Addr::new(216, 239, 35, 0);
    assert_eq!(
        handle_time_server_resolved(&Ok(ip), RETRY_INTERVAL),
        TimeServerStep::Query(Endpoint { ip, port: 123 })
    );
    assert_eq!(
        handle_time_server_resolved(&Ok(Ipv4Addr::new(127, 0, 0, 1)), 600 * SECOND),
        TimeServerStep::Retry(SyncScheduleResult {
            next_sync_delay: 600 * SECOND,
            next_retry_delay: MAX_RETRY_INTERVAL,
        })
    );
}

#[test]
fn schedule_follows_the_reply() {
    assert_eq!(
        query_ntp_time(Some((1_720_000_000, 0x4000_0000)), 240 * SECOND),
        (
            Some(SntpClientToParentMsg::SetSystemTime {
                seconds: 1_720_000_000,
                nanoseconds: 250_000_000,
            }),
            SyncScheduleResult {
                next_sync_delay: SYNC_INTERVAL,
                next_retry_delay: RETRY_INTERVAL,
            }
        )
    );
    assert_eq!(
        query_ntp_time(None, 240 * SECOND),
        (
            None,
            SyncScheduleResult {
                next_sync_delay: 240 * SECOND,
                next_retry_delay: 480 * SECOND,
            }
        )
    );
}

#[test]
fn retry_delays_double_up_to_a_quarter_of_an_hour() {
    let mut delay = RETRY_INTERVAL;
    let mut seen = Vec::new();
    for _ in 0..6 {
        seen.push(delay / SECOND);
        delay = calculate_next_retry_delay(delay);
    }
    assert_eq!(seen, vec![60, 120, 240, 480, 900, 900]);
    assert_eq!(calculate_next_retry_delay(u64::MAX), MAX_RETRY_INTERVAL);
}

#[test]
fn worker_asks_its_parent_first() {
    assert_eq!(
        run_sntp_worker_loop(SntpWorkerEvent::Tick, RETRY_INTERVAL),
        SntpWorkerAction::Send(SntpClientToParentMsg::ResolveTimeServer)
    );
    let ip = Ipv4Addr::new(216, 239, 35, 0);
    assert_eq!(
        run_sntp_worker_loop(SntpWorkerEvent::Resolved(Ok(ip)), RETRY_INTERVAL),
        SntpWorkerAction::Query(Endpoint { ip, port: 123 })
    );
    assert_eq!(
        run_sntp_worker_loop(
            SntpWorkerEvent::Resolved(Err("no answer".to_string())),
            RETRY_INTERVAL
        ),
        SntpWorkerAction::Wait(SyncScheduleResult {
            next_sync_delay: 60 * SECOND,
            next_retry_delay: 120 * SECOND,
        })
    );
    for event in [SntpWorkerEvent::ParentGone, SntpWorkerEvent::SendFailed] {
        assert_eq!(
            run_sntp_worker_loop(event, RETRY_INTERVAL),
            SntpWorkerAction::Stop
        );
    }
}

#[test]
fn one_worker_runs_while_there_is_a_lease() {
    let mut child = None;
    assert_eq!(
        run_sntp_manager_loop(&mut child, SntpParentEvent::LeaseChanged { has_wan: true }),
        SntpParentAction::Spawn
    );
    child = Some(42);
    assert_eq!(
        run_sntp_manager_loop(&mut child, SntpParentEvent::LeaseChanged { has_wan: true }),
        SntpParentAction::Nothing
    );
    assert_eq!(
        run_sntp_manager_loop(
            &mut child,
            SntpParentEvent::Worker(SntpClientToParentMsg::ResolveTimeServer)
        ),
        SntpParentAction::ResolveTimeServer
    );
    assert_eq!(
        run_sntp_manager_loop(&mut child, SntpParentEvent::LeaseChanged { has_wan: false }),
        SntpParentAction::Terminate { pid: 42 }
    );
    assert_eq!(child, None);

    child = Some(43);
    assert_eq!(
        run_sntp_manager_loop(&mut child, SntpParentEvent::WorkerGone),
        SntpParentAction::Terminate { pid: 43 }
    );
    child = Some(44);
    assert_eq!(
        run_sntp_manager_loop(&mut child, SntpParentEvent::Shutdown),
        SntpParentAction::Stop { pid: Some(44) }
    );
    assert_eq!(
        run_sntp_manager_loop(&mut child, SntpParentEvent::LeaseSenderGone),
        SntpParentAction::Stop { pid: None }
    );
}

#[test]
fn clock_is_set_to_a_sane_time_only() {
    let mut child = Some(42);
    let mut told = |seconds| {
        run_sntp_manager_loop(
            &mut child,
            SntpParentEvent::Worker(SntpClientToParentMsg::SetSystemTime {
                seconds,
                nanoseconds: 0,
            }),
        )
    };
    assert_eq!(
        told(1_720_000_000),
        SntpParentAction::SetClock {
            seconds: 1_720_000_000,
            nanoseconds: 0,
        }
    );
    assert_eq!(
        told(0),
        SntpParentAction::RejectTime {
            seconds: 0,
            nanoseconds: 0,
        }
    );
}
