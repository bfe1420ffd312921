use fondbot::reminder::load_reminders;
use fondbot::reminder::Reminder;
use fondbot::reminder::ReminderPool;
use fondbot::types::IncomingMessage;
use fondbot::types::Outbound;

const NOW: i64 = 1_000_000;

fn rem(at: i64, content: &str, delivered: bool) -> Reminder {
    Reminder {
        remind_at: at,
        set_at: NOW - 100,
        content: content.to_string(),
        chat_id: 10,
        message_id: 1,
        delivered,
    }
}

fn msg(text: &str) -> IncomingMessage {
    IncomingMessage {
        chat_id: 10,
        message_id: 1,
        sender_id: 7,
        text: Some(text.to_string()),
        reply_to: None,
    }
}

#[test]
fn loading_discards_past_and_delivered_artifacts() {
    let persisted = vec![
        rem(NOW - 5, "already past", false),
        rem(NOW + 100, "future", false),
        rem(NOW + 200, "done", true),
    ];
    let live = load_reminders(persisted, NOW);
    assert_eq!(live.len(), 1);
    assert_eq!(live[0].content, "future");

    let pool = ReminderPool::init(
        vec![rem(NOW - 1, "stale", false), rem(NOW, "on the dot", false)],
        NOW,
    );
    assert_eq!(pool.reminders.len(), 1);
    assert_eq!(pool.reminders[0].content, "on the dot");
}

#[test]
fn firing_twice_delivers_exactly_once() {
    let mut pool = ReminderPool::init(vec![rem(NOW + 100, "ping", false)], NOW);
    // nothing is due yet
    assert!(pool.fire_due(NOW).is_empty());
    // once due, the first trigger delivers ...
    let alerts = pool.fire_due(NOW + 100);
    assert_eq!(alerts.len(), 1);
    assert!(pool.reminders[0].delivered);
    match &alerts[0] {
        Outbound::SendMessage { chat_id, reply_to, text, .. } => {
            assert_eq!(*chat_id, 10);
            assert_eq!(*reply_to, Some(1));
            assert!(text.starts_with("It's time for ping"));
        }
        _ => panic!("expected an alert message"),
    }
    // ... and the second trigger delivers nothing more
    assert!(pool.fire_due(NOW + 100).is_empty());
    assert!(pool.fire_due(NOW + 500).is_empty());
}

#[test]
fn alert_guard_on_the_artifact_itself() {
    let mut r = rem(NOW, "x", false);
    assert!(r.send_alert(NOW).is_some());
    assert!(r.delivered);
    assert!(r.send_alert(NOW).is_none());
}

#[test]
fn listing_and_deleting() {
    let mut pool = ReminderPool::init(
        vec![rem(NOW + 100, "alpha", false), rem(NOW + 200, "beta", false)],
        NOW,
    );
    let out = pool.list_reminders(10, 1, false, 0);
    assert_eq!(out.len(), 1);
    let listing = match &out[0] {
        Outbound::SendMessage { text, .. } => text.clone(),
        _ => panic!("expected a listing message"),
    };
    assert!(listing.starts_with("Reminders (2)\n----------\n"));
    assert!(listing.contains("alpha (/del_0)"));
    assert!(listing.contains("beta (/del_1)"));
    // deletion goes through the listing snapshot
    pool.note_listing_message(10, 77);
    let out = pool.process(&msg("/del_0"), NOW, 0);
    assert_eq!(pool.reminders.len(), 1);
    assert_eq!(pool.reminders[0].content, "beta");
    // the listing message is refreshed in place
    assert!(matches!(out[0], Outbound::EditMessage { chat_id: 10, message_id: 77, .. }));
    // an index out of range only complains
    let out = pool.process(&msg("/del_9"), NOW, 0);
    assert_eq!(pool.reminders.len(), 1);
    assert!(matches!(out[0], Outbound::SendMessage { .. }));
    // and so does a command with no usable index
    let out = pool.process(&msg("/del_x"), NOW, 0);
    assert_eq!(pool.reminders.len(), 1);
    assert!(matches!(out[0], Outbound::SendMessage { .. }));
}

#[test]
fn empty_listing_says_so() {
    let mut pool = ReminderPool::init(Vec::new(), NOW);
    let out = pool.list_reminders(10, 1, false, 0);
    match &out[0] {
        Outbound::SendMessage { text, .. } => {
            assert_eq!(text, "Reminders (0)\n----------\nno reminders\n");
        }
        _ => panic!("expected a listing message"),
    }
}

#[test]
fn saving_keeps_only_pending_artifacts() {
    let mut pool = ReminderPool::init(vec![rem(NOW + 1, "soon", false)], NOW);
    pool.fire_due(NOW + 1);
    assert!(pool.save().is_empty());
}
