use fondbot::message::str_clean_cmd;
use fondbot::message::str_cmd_arg;
use fondbot::message::str_cmd_name;
use fondbot::message::TgCallbackQueryExt;
use fondbot::message::TgMessageExt;
use fondbot::types::CallbackQuery;
use fondbot::types::IncomingMessage;
use fondbot::types::ReplyTarget;

fn msg(text: Option<&str>) -> IncomingMessage {
    IncomingMessage {
        chat_id: 1,
        message_id: 2,
        sender_id: 3,
        text: text.map(|t| t.to_string()),
        reply_to: None,
    }
}

#[test]
fn command_names() {
    assert_eq!(str_cmd_name("/weather"), Some("weather".to_string()));
    assert_eq!(str_cmd_name("/remind_me call mom"), Some("remind_me".to_string()));
    assert_eq!(str_cmd_name("/cmd@mybot arg"), Some("cmd".to_string()));
    assert_eq!(str_cmd_name("hello"), None);
    assert_eq!(str_cmd_name("/"), None);
    assert_eq!(str_cmd_name("/ x"), None);
}

#[test]
fn command_arguments() {
    assert_eq!(str_cmd_arg("/remind_me call mom"), Some("call mom".to_string()));
    assert_eq!(str_cmd_arg("/cmd@mybot arg"), Some("arg".to_string()));
    assert_eq!(str_cmd_arg("/cmd@xyz arg"), None); // the tag is not a bot tag
    assert_eq!(str_cmd_arg("/weather"), None);
    assert_eq!(str_cmd_arg("/track  ABC"), Some(" ABC".to_string()));
}

#[test]
fn command_argument_splitting() {
    let m = msg(Some("/add_loc beijing 116.4,39.9"));
    assert_eq!(m.cmd_args(), vec!["beijing".to_string(), "116.4,39.9".to_string()]);
    // extra separator width shows up as a leading empty piece
    let m2 = msg(Some("/track  ABC"));
    assert_eq!(m2.cmd_args(), vec!["".to_string(), "ABC".to_string()]);
    // no argument splits as the empty text
    let m3 = msg(Some("/weather"));
    assert_eq!(m3.cmd_args(), vec!["".to_string()]);
}

#[test]
fn cleaning_bot_tags() {
    assert_eq!(str_clean_cmd("/weather@fondbot now"), "/weather now");
    assert_eq!(str_clean_cmd("/weather now"), "/weather now");
    assert_eq!(str_clean_cmd("plain text"), "plain text");
    assert_eq!(str_clean_cmd("/cmd@xyz arg"), "/cmd@xyz arg");
}

#[test]
fn message_trait_view() {
    let m = msg(Some("/remind_me milk"));
    assert!(m.is_cmd("remind_me"));
    assert!(!m.is_cmd("weather"));
    assert_eq!(m.cmd_arg(), Some("milk".to_string()));
    assert_eq!(m.text_content(), Some("/remind_me milk".to_string()));
    assert!(!m.is_reply_to_bot());
    assert!(msg(None).cmd_name().is_none());

    let mut tagged = msg(Some("/weather@fondbot now"));
    tagged.clean_cmd();
    assert_eq!(tagged.text_content(), Some("/weather now".to_string()));
}

#[test]
fn reply_detection() {
    let m = IncomingMessage {
        chat_id: 1,
        message_id: 2,
        sender_id: 3,
        text: Some("buy milk".to_string()),
        reply_to: Some(ReplyTarget {
            message_id: 44,
            from_bot: true,
            text: Some("What do you want to be reminded about?".to_string()),
        }),
    };
    assert!(m.is_reply_to_bot());
    assert!(m.is_force_reply("What do you want to be reminded about?"));
    assert!(!m.is_force_reply("something else"));
}

#[test]
fn callback_payload_split() {
    let q = CallbackQuery { chat_id: 1, message_id: 2, data: "reminder.+/1/min".to_string() };
    assert_eq!(q.ext(), Some("reminder".to_string()));
    assert_eq!(q.key(), Some("+/1/min".to_string()));

    let bare = CallbackQuery { chat_id: 1, message_id: 2, data: "nodot".to_string() };
    assert_eq!(bare.ext(), Some("nodot".to_string()));
    assert_eq!(bare.key(), None);
}
