use fondbot::dispatch::Context;
use fondbot::dispatch::Plugin;
use fondbot::guard::SafetyGuard;
use fondbot::name_map::NameMap;
use fondbot::reminder::ReminderPool;
use fondbot::session::Stage;
use fondbot::tracker::Tracker;
use fondbot::types::IncomingMessage;
use fondbot::types::Update;
use fondbot::types::CallbackQuery;
use fondbot::types::Outbound;

fn text_message(chat: i64, id: i64, text: &str) -> IncomingMessage {
    IncomingMessage {
        chat_id: chat,
        message_id: id,
        sender_id: 7,
        text: Some(text.to_string()),
        reply_to: None,
    }
}

fn fresh_context(admitted: i64) -> Context {
    let mut guard = SafetyGuard::new();
    guard.add_safe_chat(admitted);
    let mut ctx = Context::new(guard, NameMap::new());
    assert!(ctx.plug_ext(Plugin::Reminder(ReminderPool::init(Vec::new(), 1_000_000))));
    assert!(ctx.plug_ext(Plugin::Tracker(Tracker::new())));
    ctx
}

#[test]
fn guard_admission_basics() {
    let mut g = SafetyGuard::new();
    assert!(!g.is_safe(5));
    g.add_safe_chat(5);
    assert!(g.is_safe(5));
    g.add_safe_chat(5);
    assert_eq!(g.count(), 1);
    g.add_safe_chat(9);
    assert_eq!(g.count(), 2);
    g.remove_safe_chat(5);
    assert!(!g.is_safe(5));
    assert!(g.is_safe(9));
}

#[test]
fn guard_rebuild_collapses_duplicates() {
    let g = SafetyGuard::from_list(&vec![1, 2, 2, 3, 1]);
    assert_eq!(g.count(), 3);
    assert!(g.is_safe(1) && g.is_safe(2) && g.is_safe(3));
    let snap = g.snapshot();
    assert_eq!(snap, vec![1, 2, 3]);
}

#[test]
fn unadmitted_origin_gets_exactly_one_denial_and_no_plugin_runs() {
    let mut ctx = fresh_context(10);
    let msg = text_message(99, 1, "/remind_me call mom");
    let outcome = ctx.process_message(&msg, 1_000_000, 0);
    assert_eq!(outcome.outbound.len(), 1);
    match &outcome.outbound[0] {
        Outbound::SendMessage { chat_id, reply_to, .. } => {
            assert_eq!(*chat_id, 99);
            assert_eq!(*reply_to, Some(1));
        }
        _ => panic!("expected a denial message"),
    }
    // the reminder plugin saw nothing: no session was opened
    match &ctx.exts[0] {
        Plugin::Reminder(pool) => assert!(pool.set_reminder.is_none()),
        _ => panic!("expected the reminder plugin first"),
    }
}

#[test]
fn admitted_origin_reaches_the_plugins() {
    let mut ctx = fresh_context(10);
    let msg = text_message(10, 1, "/remind_me call mom");
    let outcome = ctx.process_message(&msg, 1_000_000, 0);
    assert!(!outcome.outbound.is_empty());
    match &ctx.exts[0] {
        Plugin::Reminder(pool) => {
            let session = pool.set_reminder.as_ref().expect("session open");
            assert_eq!(session.stage, Stage::AwaitingTime);
        }
        _ => panic!("expected the reminder plugin first"),
    }
}

#[test]
fn unadmitted_callback_gets_one_denial() {
    let mut ctx = fresh_context(10);
    let query = CallbackQuery {
        chat_id: 99,
        message_id: 50,
        data: "reminder.+/1/hr".to_string(),
    };
    let out = ctx.process_callback(&query, 1_000_000, 0);
    assert_eq!(out.len(), 1);
    assert!(matches!(out[0], Outbound::SendMessage { chat_id: 99, .. }));
}

#[test]
fn callback_routes_to_exactly_the_named_plugin() {
    let mut ctx = fresh_context(10);
    let msg = text_message(10, 1, "/remind_me call mom");
    ctx.process_message(&msg, 1_000_000, 0);
    // an adjustment key reaches the reminder plugin
    let query = CallbackQuery {
        chat_id: 10,
        message_id: 50,
        data: "reminder.+/1/hr".to_string(),
    };
    let out = ctx.process_callback(&query, 1_000_000, 0);
    assert!(!out.is_empty());
    match &ctx.exts[0] {
        Plugin::Reminder(pool) => {
            let session = pool.set_reminder.as_ref().expect("session open");
            assert_eq!(session.remind_at, Some(1_000_000 + 3600));
        }
        _ => panic!("expected the reminder plugin first"),
    }
    // an unknown prefix is dropped
    let unknown = CallbackQuery {
        chat_id: 10,
        message_id: 50,
        data: "nosuch.key".to_string(),
    };
    let out = ctx.process_callback(&unknown, 1_000_000, 0);
    assert!(out.is_empty());
}

#[test]
fn dispatching_against_the_real_clock() {
    let mut ctx = fresh_context(10);
    // denial behaviour does not depend on what the clock says
    let outcome = ctx.process_update_now(&Update::Message(text_message(99, 1, "hi")));
    assert_eq!(outcome.outbound.len(), 1);
    // an admitted command opens a session stamped with the real clock
    let outcome = ctx.process_update_now(&Update::Message(text_message(10, 1, "/remind_me x")));
    assert!(!outcome.outbound.is_empty());
    match &ctx.exts[0] {
        Plugin::Reminder(pool) => {
            let s = pool.set_reminder.as_ref().expect("session open");
            // the candidate is the clock reading: past the 2020s, well short of the far future
            let at = s.remind_at.expect("candidate set");
            assert!(at > 1_500_000_000 && at < 10_000_000_000);
        }
        _ => panic!("expected the reminder plugin first"),
    }
}

#[test]
fn duplicate_plugin_names_are_refused() {
    let mut ctx = fresh_context(10);
    assert!(!ctx.plug_ext(Plugin::Tracker(Tracker::new())));
    assert_eq!(ctx.exts.len(), 2);
}
