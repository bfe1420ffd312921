use std::sync::mpsc::channel;

use fondbot::manager::format_config_item;
use fondbot::manager::Manager;
use fondbot::name_map::NameMap;
use fondbot::name_map::User;
use fondbot::tg_logger::format_log;
use fondbot::tg_logger::TgDrain;
use fondbot::timer::Timer;
use fondbot::types::IncomingMessage;
use fondbot::types::Outbound;
use fondbot::util::Omittable;

fn msg(text: &str) -> IncomingMessage {
    IncomingMessage {
        chat_id: 10,
        message_id: 1,
        sender_id: 7,
        text: Some(text.to_string()),
        reply_to: None,
    }
}

#[test]
fn config_items_render() {
    assert_eq!(format_config_item("safe_chats", "[1,2]"), "Key: [safe_chats]\nValue:\n[1,2]\n");
}

#[test]
fn config_listing() {
    let m = Manager::new();
    let confs = vec![
        ("a".to_string(), "1".to_string()),
        ("b".to_string(), "2".to_string()),
    ];
    let out = m.process(&msg("/list_conf"), &confs);
    match &out[0] {
        Outbound::SendMessage { text, .. } => {
            assert_eq!(
                text,
                "Listing 2 config items\n---\nKey: [a]\nValue:\n1\n---\nKey: [b]\nValue:\n2\n---\n"
            );
        }
        _ => panic!("expected the listing"),
    }
    assert!(m.process(&msg("hello"), &confs).is_empty());
}

#[test]
fn name_resolution() {
    let mut names = NameMap::new();
    names.add_name_map(7, "boss");
    assert_eq!(names.get(&7i64), "boss");
    assert_eq!(names.get(&9i64), "");
    let user = User { id: 9, first_name: "Alice".to_string() };
    assert_eq!(names.get(&user), "Alice");
    names.add_name_map(9, "allie");
    assert_eq!(names.get(&user), "allie");
    // a newer mapping shadows the older one
    names.add_name_map(7, "chief");
    assert_eq!(names.get(&7i64), "chief");
}

#[test]
fn timer_configuration() {
    let (tx, _rx) = channel::<u8>();
    let t = Timer::new(5000, tx, 1u8);
    assert_eq!(t.interval_ms, 5000);
    assert_eq!(t.signal, 1);
}

#[test]
fn log_drain() {
    let d = TgDrain::new("example-token", 42);
    assert_eq!(d.chat_id, 42);
    assert_eq!(d.token, "example-token");
    assert_eq!(
        format_log("INFO", "dispatch", "process_message", "hello"),
        "<code>[INFO]dispatchprocess_message:</code> hello"
    );
}

#[test]
fn omitted_results() {
    let r: Result<(), ()> = Ok(());
    r.omit();
    r.o();
    ().omit();
}
