use std::sync::mpsc::channel;

use fondbot::tracker::Progress;
use fondbot::tracker::ProgressItem;
use fondbot::tracker::ProgressTracker;
use fondbot::tracker::Tracker;
use fondbot::tracker::WorkerSignal;
use fondbot::types::IncomingMessage;
use fondbot::types::Outbound;

fn item(time: &str, what: &str) -> ProgressItem {
    ProgressItem { time: time.to_string(), context: what.to_string(), location: None }
}

fn progress(ischeck: &str, items: Vec<ProgressItem>) -> Progress {
    Progress {
        nu: "ABC123".to_string(),
        com: "carrier".to_string(),
        ischeck: ischeck.to_string(),
        data: items,
    }
}

fn msg(text: &str) -> IncomingMessage {
    IncomingMessage {
        chat_id: 10,
        message_id: 1,
        sender_id: 7,
        text: Some(text.to_string()),
        reply_to: None,
    }
}

#[test]
fn tracking_the_same_key_replaces_the_old_worker() {
    let mut reg = Tracker::new();
    let (tx1, rx1) = channel();
    reg.track("ABC123".to_string(), tx1);
    assert_eq!(reg.count(), 1);

    let (tx2, rx2) = channel();
    reg.track("ABC123".to_string(), tx2);
    // still exactly one worker for the key ...
    assert_eq!(reg.count(), 1);
    // ... the old one was told to quit ...
    assert!(matches!(rx1.try_recv(), Ok(WorkerSignal::Quit)));
    // ... and control signals now reach the new one
    assert!(reg.query("ABC123"));
    assert!(matches!(rx2.try_recv(), Ok(WorkerSignal::Report)));
    assert!(matches!(rx1.try_recv(), Err(_)));
}

#[test]
fn cleanup_removes_exactly_the_dead_workers() {
    let mut reg = Tracker::new();
    let (tx_a, _rx_a) = channel();
    let (tx_b, rx_b) = channel();
    reg.track("A".to_string(), tx_a);
    reg.track("B".to_string(), tx_b);
    assert_eq!(reg.count(), 2);

    // worker B exits: its channel closes, so pinging it fails
    drop(rx_b);
    let removed = reg.cleanup();
    assert_eq!(removed, 1);
    assert_eq!(reg.count(), 1);
    assert!(reg.query("A"));
    assert!(!reg.query("B"));
}

#[test]
fn listing_marks_liveness() {
    let mut reg = Tracker::new();
    let (tx_a, _rx_a) = channel();
    let (tx_b, rx_b) = channel();
    reg.track("A".to_string(), tx_a);
    reg.track("B".to_string(), tx_b);
    drop(rx_b);
    let text = reg.list();
    assert_eq!(text, ">>> Tracking 2 items <<<\n`[alive]`\tA\n`[dead ]`\tB\n");
    let fixed = reg.list_with(&vec![false, true]);
    assert_eq!(fixed, ">>> Tracking 2 items <<<\n`[dead ]`\tA\n`[alive]`\tB\n");
}

#[test]
fn untracking_stops_the_worker() {
    let mut reg = Tracker::new();
    let (tx, rx) = channel();
    reg.track("A".to_string(), tx);
    assert!(reg.untrack("A"));
    assert!(matches!(rx.try_recv(), Ok(WorkerSignal::Quit)));
    assert_eq!(reg.count(), 0);
    assert!(!reg.untrack("A"));
}

#[test]
fn progress_reports_split_new_from_acknowledged() {
    // the carrier reports newest first
    let mut t = ProgressTracker::new(
        progress("0", vec![item("t2", "left the depot"), item("t1", "accepted")]),
        10,
        None,
    );
    assert!(t.is_updated());
    let body = t.report_progress(false).expect("new progress");
    assert_eq!(body, "-- _new progress below_ --\n`t1` - accepted\n`t2` - left the depot\n");
    // everything acknowledged: nothing to report unless forced
    assert!(t.report_progress(false).is_none());
    let forced = t.report_progress(true).expect("forced report");
    assert_eq!(forced, "`t1` - accepted\n`t2` - left the depot\n");
    // one new step arrives on top
    t.update_progress(Some(progress(
        "0",
        vec![item("t3", "out for delivery"), item("t2", "left the depot"), item("t1", "accepted")],
    )));
    let body = t.report_progress(false).expect("one new step");
    assert_eq!(
        body,
        "`t1` - accepted\n`t2` - left the depot\n-- _new progress below_ --\n`t3` - out for delivery\n"
    );
}

#[test]
fn failed_fetch_changes_nothing_and_completion_quits() {
    let mut t = ProgressTracker::new(progress("0", vec![item("t1", "accepted")]), 10, Some(40));
    t.report_progress(false);
    // a failed fetch: cursor and data untouched, no quit
    let (report, notice, quit) = t.on_tick(None);
    assert!(report.is_none() && notice.is_none() && !quit);
    // completion: a final notice comes and the worker asks to stop
    let (report, notice, quit) = t.on_tick(Some(progress(
        "1",
        vec![item("t2", "delivered"), item("t1", "accepted")],
    )));
    assert!(report.is_some());
    assert!(quit);
    match notice.expect("final notice") {
        Outbound::SendMessage { chat_id, reply_to, .. } => {
            assert_eq!(chat_id, 10);
            assert_eq!(reply_to, Some(40));
        }
        _ => panic!("expected the final notice"),
    }
}

#[test]
fn snapshots_round_trip() {
    let mut t = ProgressTracker::new(
        progress("0", vec![item("t2", "b"), item("t1", "a")]),
        10,
        Some(5),
    );
    t.report_progress(false);
    t.note_report_msg(41);
    let snap = t.from_tracker();
    assert_eq!(snap.tracking_no, "ABC123");
    assert_eq!(snap.last_msg_id, Some(41));
    assert_eq!(snap.ack_len, 2);
    assert_eq!(snap.chat_id, 10);

    let restored = ProgressTracker::from_state(&snap, progress("0", vec![item("t2", "b")]));
    // the saved cursor clamps to the fresh fetch
    assert_eq!(restored.ack_len, 1);
    assert_eq!(restored.chat_id, 10);
    assert_eq!(restored.last_msg_id, Some(41));
}

#[test]
fn snapshot_requests_reach_live_workers() {
    let mut reg = Tracker::new();
    let (tx_a, rx_a) = channel();
    let (tx_b, rx_b) = channel();
    reg.track("A".to_string(), tx_a);
    reg.track("B".to_string(), tx_b);
    drop(rx_b);
    let (reply_tx, _reply_rx) = channel();
    let accepted = reg.request_snapshots(&reply_tx);
    assert_eq!(accepted, 1);
    assert!(matches!(rx_a.try_recv(), Ok(WorkerSignal::Save(_))));
}

#[test]
fn command_routing() {
    let mut reg = Tracker::new();
    let (out, start) = reg.process(&msg("/track ABC123"));
    assert!(out.is_empty());
    assert_eq!(start.as_deref(), Some("ABC123"));
    // the registry itself is untouched until the worker is installed
    assert_eq!(reg.count(), 0);

    let (out, start) = reg.process(&msg("/track"));
    assert!(start.is_none());
    assert!(matches!(&out[0], Outbound::SendMessage { .. }));

    let (tx, _rx) = channel();
    reg.track("ABC123".to_string(), tx);
    let (out, _) = reg.process(&msg("/untrack ABC123"));
    assert_eq!(reg.count(), 0);
    match &out[0] {
        Outbound::SendMessage { text, .. } => assert_eq!(text, "Tracker ABC123 killed"),
        _ => panic!("expected a confirmation"),
    }

    let (out, _) = reg.process(&msg("/list"));
    match &out[0] {
        Outbound::SendMessage { text, markdown, .. } => {
            assert_eq!(text, ">>> Tracking 0 items <<<\n");
            assert!(*markdown);
        }
        _ => panic!("expected the listing"),
    }

    let (out, start) = reg.process(&msg("just chatting"));
    assert!(out.is_empty() && start.is_none());

    let (out, _) = reg.process(&msg("/cleanup"));
    match &out[0] {
        Outbound::SendMessage { text, .. } => {
            assert_eq!(text, ">>> Tracking 0 items <<<\n---\n0 entries removed.");
        }
        _ => panic!("expected the cleanup summary"),
    }
}
