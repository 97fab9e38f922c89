use hedwig::monitor::{
    ordered_uids, pending_uids, search_query, Monitor, MonitorAction, MonitorEvent, Stage,
    IDLE_KEEPALIVE_SECS,
};
use hedwig::supervisor::{
    restart_after, Attempt, Restart, ERROR_BACKOFF_SECS, MISSING_HUB_BACKOFF_SECS,
};

/// Runs one search result through the monitor, recording each watermark it
/// asks to store and reporting every write as done.
fn persist_uids_in_order(
    calls: &mut Vec<(i32, i32)>,
    hub_id: i32,
    last_uid: &mut u32,
    persisted_uid: &mut i32,
    uids: Vec<u32>,
) -> Vec<u32> {
    let mut monitor = Monitor::new(hub_id, *persisted_uid);
    monitor.last_uid = *last_uid;
    let mut processed = Vec::new();
    assert!(matches!(monitor.step(MonitorEvent::SessionReady), MonitorAction::Search { .. }));
    let mut action = monitor.step(MonitorEvent::SearchCompleted(uids));
    loop {
        action = match action {
            MonitorAction::Process { uid } => {
                processed.push(uid);
                monitor.step(MonitorEvent::MessageProcessed)
            }
            MonitorAction::Persist { hub_id, watermark } => {
                calls.push((hub_id, watermark));
                monitor.step(MonitorEvent::WatermarkStored)
            }
            MonitorAction::Idle => break,
            other => panic!("unexpected action {:?}", other),
        };
    }
    *last_uid = monitor.last_uid;
    *persisted_uid = monitor.persisted_uid;
    processed
}

#[test]
fn advances_and_persists_single_uid() {
    let mut calls = Vec::new();
    let mut last_uid = 0_u32;
    let mut persisted_uid = 0;

    persist_uids_in_order(&mut calls, 7, &mut last_uid, &mut persisted_uid, vec![42_u32]);

    assert_eq!(last_uid, 42);
    assert_eq!(persisted_uid, 42);
    assert_eq!(calls.as_slice(), &[(7, 42)]);
}

#[test]
fn processes_in_uid_order_and_persists_each_step() {
    let mut calls = Vec::new();
    let mut last_uid = 0_u32;
    let mut persisted_uid = 0;

    let processed = persist_uids_in_order(
        &mut calls,
        1,
        &mut last_uid,
        &mut persisted_uid,
        vec![5_u32, 3_u32, 4_u32],
    );
    assert_eq!(last_uid, 5);
    assert_eq!(persisted_uid, 5);
    assert_eq!(calls.as_slice(), &[(1, 3), (1, 4), (1, 5)]);
    assert_eq!(processed, vec![3, 4, 5]);
}

#[test]
fn uids_are_ordered_ascending() {
    assert_eq!(ordered_uids(vec![5, 3, 4]), vec![3, 4, 5]);
    assert_eq!(ordered_uids(vec![2, 2, 1, u32::MAX, 0]), vec![0, 1, 2, 2, u32::MAX]);
    assert_eq!(ordered_uids(Vec::new()), Vec::<u32>::new());
}

#[test]
fn cutoff_is_left_out_of_the_pending_uids() {
    assert_eq!(pending_uids(vec![9, 7, 8], 7), vec![8, 9]);
    assert_eq!(pending_uids(vec![7], 7), Vec::<u32>::new());
    assert_eq!(pending_uids(vec![7, 3, 7], 7), vec![3]);
    assert_eq!(pending_uids(vec![2, 1], 0), vec![1, 2]);
}

#[test]
fn search_asks_for_everything_after_the_last_uid() {
    assert_eq!(search_query(1), "UID 1:*");
    assert_eq!(search_query(43), "UID 43:*");
    assert_eq!(search_query(u32::MAX), "UID 4294967295:*");
    let mut monitor = Monitor::new(3, 42);
    assert_eq!(monitor.step(MonitorEvent::SessionReady), MonitorAction::Search { first: 43 });
    let mut at_end = Monitor::new(3, 0);
    at_end.last_uid = u32::MAX;
    assert_eq!(at_end.step(MonitorEvent::SessionReady), MonitorAction::Search { first: u32::MAX });
}

#[test]
fn monitor_starts_from_the_stored_watermark() {
    let monitor = Monitor::new(9, 17);
    assert_eq!(monitor.hub_id, 9);
    assert_eq!(monitor.last_uid, 17);
    assert_eq!(monitor.persisted_uid, 17);
    assert_eq!(monitor.stage, Stage::Connected);
    assert!(monitor.queue.is_empty());
    let negative = Monitor::new(9, -5);
    assert_eq!(negative.last_uid, 0);
    assert_eq!(negative.persisted_uid, -5);
}

#[test]
fn nothing_new_leads_to_idle_and_back_to_search() {
    let mut monitor = Monitor::new(1, 10);
    monitor.step(MonitorEvent::SessionReady);
    assert_eq!(monitor.step(MonitorEvent::SearchCompleted(vec![10])), MonitorAction::Idle);
    assert_eq!(monitor.stage, Stage::Idling);
    assert_eq!(monitor.step(MonitorEvent::IdleTimedOut), MonitorAction::Search { first: 11 });
    assert_eq!(monitor.step(MonitorEvent::SearchCompleted(Vec::new())), MonitorAction::Idle);
    assert_eq!(monitor.step(MonitorEvent::IdleNotified), MonitorAction::Search { first: 11 });
    assert_eq!(monitor.step(MonitorEvent::SearchCompleted(vec![12, 11])), MonitorAction::Process { uid: 11 });
    assert_eq!(monitor.stage, Stage::Processing(11));
    assert_eq!(monitor.queue, vec![12]);
}

#[test]
fn idle_failure_stops_the_monitor() {
    let mut monitor = Monitor::new(1, 10);
    monitor.step(MonitorEvent::SessionReady);
    monitor.step(MonitorEvent::SearchCompleted(Vec::new()));
    assert_eq!(monitor.step(MonitorEvent::IdleFailed), MonitorAction::Stop);
    assert_eq!(monitor.stage, Stage::Stopped);
    assert_eq!(monitor.step(MonitorEvent::IdleNotified), MonitorAction::Stop);
}

#[test]
fn unexpected_event_stops_the_monitor() {
    let mut monitor = Monitor::new(1, 10);
    assert_eq!(monitor.step(MonitorEvent::MessageProcessed), MonitorAction::Stop);
    assert_eq!(monitor.stage, Stage::Stopped);
    assert_eq!(monitor.persisted_uid, 10);
}

#[test]
fn failed_write_stops_the_monitor_and_keeps_the_stored_watermark() {
    let mut monitor = Monitor::new(4, 0);
    monitor.step(MonitorEvent::SessionReady);
    assert_eq!(monitor.step(MonitorEvent::SearchCompleted(vec![2, 1])), MonitorAction::Process { uid: 1 });
    assert_eq!(
        monitor.step(MonitorEvent::MessageProcessed),
        MonitorAction::Persist { hub_id: 4, watermark: 1 }
    );
    assert_eq!(monitor.stage, Stage::Persisting(1));
    assert_eq!(monitor.step(MonitorEvent::WatermarkFailed), MonitorAction::Stop);
    assert_eq!(monitor.stage, Stage::Stopped);
    assert_eq!(monitor.persisted_uid, 0);
    assert_eq!(monitor.last_uid, 1);
    assert!(monitor.queue.is_empty());
    assert_eq!(monitor.step(MonitorEvent::MessageProcessed), MonitorAction::Stop);
}

#[test]
fn failed_search_stops_the_monitor() {
    let mut monitor = Monitor::new(4, 9);
    monitor.step(MonitorEvent::SessionReady);
    assert_eq!(monitor.step(MonitorEvent::SearchFailed), MonitorAction::Stop);
    assert_eq!(monitor.stage, Stage::Stopped);
    assert_eq!(monitor.persisted_uid, 9);
}

#[test]
fn vanished_and_unreadable_messages_advance_the_watermark() {
    let mut monitor = Monitor::new(4, 0);
    monitor.step(MonitorEvent::SessionReady);
    assert_eq!(
        monitor.step(MonitorEvent::SearchCompleted(vec![3, 2, 1])),
        MonitorAction::Process { uid: 1 }
    );
    assert_eq!(
        monitor.step(MonitorEvent::MessageVanished),
        MonitorAction::Persist { hub_id: 4, watermark: 1 }
    );
    assert_eq!(monitor.step(MonitorEvent::WatermarkStored), MonitorAction::Process { uid: 2 });
    assert_eq!(
        monitor.step(MonitorEvent::MessageUnreadable),
        MonitorAction::Persist { hub_id: 4, watermark: 2 }
    );
    assert_eq!(monitor.step(MonitorEvent::WatermarkStored), MonitorAction::Process { uid: 3 });
    assert_eq!(
        monitor.step(MonitorEvent::MessageProcessed),
        MonitorAction::Persist { hub_id: 4, watermark: 3 }
    );
    assert_eq!(monitor.step(MonitorEvent::WatermarkStored), MonitorAction::Idle);
    assert_eq!((monitor.last_uid, monitor.persisted_uid), (3, 3));
}

#[test]
fn watermark_never_decreases() {
    let mut monitor = Monitor::new(1, 50);
    monitor.step(MonitorEvent::SessionReady);
    assert_eq!(monitor.step(MonitorEvent::SearchCompleted(vec![40])), MonitorAction::Process { uid: 40 });
    assert_eq!(monitor.step(MonitorEvent::MessageProcessed), MonitorAction::Idle);
    assert_eq!(monitor.last_uid, 40);
    assert_eq!(monitor.persisted_uid, 50);
}

#[test]
fn uid_beyond_the_signed_range_is_processed_but_not_stored() {
    let mut monitor = Monitor::new(1, 5);
    monitor.step(MonitorEvent::SessionReady);
    assert_eq!(
        monitor.step(MonitorEvent::SearchCompleted(vec![2147483648, 2147483647])),
        MonitorAction::Process { uid: 2147483647 }
    );
    assert_eq!(
        monitor.step(MonitorEvent::MessageProcessed),
        MonitorAction::Persist { hub_id: 1, watermark: 2147483647 }
    );
    assert_eq!(monitor.step(MonitorEvent::WatermarkStored), MonitorAction::Process { uid: 2147483648 });
    assert_eq!(monitor.step(MonitorEvent::MessageProcessed), MonitorAction::Idle);
    assert_eq!(monitor.last_uid, 2147483648);
    assert_eq!(monitor.persisted_uid, 2147483647);
}

#[test]
fn keepalive_stays_under_half_an_hour() {
    assert_eq!(IDLE_KEEPALIVE_SECS, 29 * 60);
}

#[test]
fn supervisor_restarts_after_fixed_pauses() {
    assert_eq!(ERROR_BACKOFF_SECS, 5);
    assert_eq!(MISSING_HUB_BACKOFF_SECS, 10);
    assert_eq!(restart_after(Attempt::LookupFailed), Restart::After { seconds: 5 });
    assert_eq!(restart_after(Attempt::HubMissing), Restart::After { seconds: 10 });
    assert_eq!(restart_after(Attempt::Failed), Restart::After { seconds: 5 });
    assert_eq!(restart_after(Attempt::Panicked), Restart::After { seconds: 5 });
    assert_eq!(restart_after(Attempt::Completed), Restart::Never);
}
