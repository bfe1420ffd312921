use fondbot::reminder::ReminderPool;
use fondbot::session::parse_adjust;
use fondbot::session::SetReminder;
use fondbot::session::Stage;
use fondbot::types::CallbackQuery;
use fondbot::types::IncomingMessage;
use fondbot::types::Outbound;
use fondbot::types::ReplyTarget;

const NOW: i64 = 1_000_000;

fn msg(text: &str) -> IncomingMessage {
    IncomingMessage {
        chat_id: 10,
        message_id: 1,
        sender_id: 7,
        text: Some(text.to_string()),
        reply_to: None,
    }
}

fn bot_reply(text: &str) -> IncomingMessage {
    IncomingMessage {
        chat_id: 10,
        message_id: 2,
        sender_id: 7,
        text: Some(text.to_string()),
        reply_to: Some(ReplyTarget { message_id: 90, from_bot: true, text: None }),
    }
}

fn cb(key: &str) -> CallbackQuery {
    CallbackQuery { chat_id: 10, message_id: 55, data: format!("reminder.{}", key) }
}

#[test]
fn adjustment_keys_parse_to_signed_deltas() {
    assert_eq!(parse_adjust("+/1/min"), Some(60));
    assert_eq!(parse_adjust("+/5/min"), Some(300));
    assert_eq!(parse_adjust("-/30/min"), Some(-1800));
    assert_eq!(parse_adjust("+/2/hr"), Some(7200));
    assert_eq!(parse_adjust("-/4/hr"), Some(-14400));
    assert_eq!(parse_adjust("+/30/day"), Some(2_592_000));
    assert_eq!(parse_adjust("x/1/min"), None);
    assert_eq!(parse_adjust("+/1/sec"), None);
    assert_eq!(parse_adjust("+//min"), None);
    assert_eq!(parse_adjust("commit_time"), None);
    assert_eq!(parse_adjust("+/99999999999999999999/min"), None);
}

#[test]
fn end_to_end_remind_me_with_inline_content() {
    // `/remind_me call mom` starts directly at AwaitingTime
    let mut pool = ReminderPool::init(Vec::new(), NOW);
    pool.process(&msg("/remind_me call mom"), NOW, 0);
    {
        let s = pool.set_reminder.as_ref().expect("session open");
        assert_eq!(s.stage, Stage::AwaitingTime);
        assert_eq!(s.content.as_deref(), Some("call mom"));
        assert_eq!(s.remind_at, Some(NOW));
    }
    // two +1 hour adjustments move the candidate to now + 2h
    pool.process_callback(&cb("+/1/hr"), NOW, 0);
    pool.process_callback(&cb("+/1/hr"), NOW, 0);
    assert_eq!(pool.set_reminder.as_ref().unwrap().remind_at, Some(NOW + 7200));
    // the commit builds the artifact and ends the session
    pool.process_callback(&cb("commit_time"), NOW, 0);
    assert!(pool.set_reminder.is_none());
    assert_eq!(pool.reminders.len(), 1);
    let rem = &pool.reminders[0];
    assert_eq!(rem.remind_at, NOW + 7200);
    assert_eq!(rem.set_at, NOW);
    assert_eq!(rem.content, "call mom");
    assert_eq!(rem.chat_id, 10);
    assert!(!rem.delivered);
}

#[test]
fn commit_too_soon_is_rejected_and_reprompts() {
    let mut pool = ReminderPool::init(Vec::new(), NOW);
    pool.process(&msg("/remind_me x"), NOW, 0);
    // candidate == now: not strictly beyond the minimum lead time
    let out = pool.process_callback(&cb("commit_time"), NOW, 0);
    assert_eq!(out.len(), 1);
    assert!(matches!(out[0], Outbound::SendMessage { .. }));
    let s = pool.set_reminder.as_ref().expect("session still open");
    assert_eq!(s.stage, Stage::AwaitingTime);
    assert!(pool.reminders.is_empty());
    // a minute of lead clears the minimum and the commit goes through
    pool.process_callback(&cb("+/1/min"), NOW, 0);
    pool.process_callback(&cb("commit_time"), NOW, 0);
    assert!(pool.set_reminder.is_none());
    assert_eq!(pool.reminders.len(), 1);
}

#[test]
fn new_trigger_replaces_the_session() {
    let mut pool = ReminderPool::init(Vec::new(), NOW);
    pool.process(&msg("/remind_me first"), NOW, 0);
    pool.process_callback(&cb("+/1/hr"), NOW, 0);
    pool.process(&msg("/remind_me second"), NOW + 50, 0);
    let s = pool.set_reminder.as_ref().expect("session open");
    assert_eq!(s.content.as_deref(), Some("second"));
    // the old partial state is gone: the candidate restarts at the new now
    assert_eq!(s.remind_at, Some(NOW + 50));
    assert_eq!(s.stage, Stage::AwaitingTime);
}

#[test]
fn content_is_collected_from_a_reply_to_the_bot() {
    let mut pool = ReminderPool::init(Vec::new(), NOW);
    pool.process(&msg("/remind_me"), NOW, 0);
    assert_eq!(pool.set_reminder.as_ref().unwrap().stage, Stage::AwaitingContent);
    // an empty reply re-prompts and keeps the stage
    let mut empty = bot_reply("");
    empty.text = Some(String::new());
    let out = pool.process(&empty, NOW, 0);
    assert_eq!(out.len(), 2);
    assert_eq!(pool.set_reminder.as_ref().unwrap().stage, Stage::AwaitingContent);
    // a real reply stores the content and moves on to the time prompt
    pool.process(&bot_reply("buy milk"), NOW, 0);
    let s = pool.set_reminder.as_ref().unwrap();
    assert_eq!(s.stage, Stage::AwaitingTime);
    assert_eq!(s.content.as_deref(), Some("buy milk"));
}

#[test]
fn malformed_callback_keys_change_nothing() {
    let mut pool = ReminderPool::init(Vec::new(), NOW);
    pool.process(&msg("/remind_me x"), NOW, 0);
    pool.process_callback(&cb("+/1/parsec"), NOW, 0);
    let s = pool.set_reminder.as_ref().unwrap();
    assert_eq!(s.remind_at, Some(NOW));
    assert_eq!(s.stage, Stage::AwaitingTime);
}

#[test]
fn session_build_requires_all_fields() {
    let m = msg("/remind_me");
    let s = SetReminder::init(&m, NOW);
    assert_eq!(s.stage, Stage::AwaitingContent);
    assert!(s.build(NOW).is_none());
    let m2 = msg("/remind_me task");
    let s2 = SetReminder::init(&m2, NOW);
    let built = s2.build(NOW).expect("content and time present");
    assert_eq!(built.content, "task");
    assert_eq!(built.remind_at, NOW);
    assert!(!built.delivered);
}
