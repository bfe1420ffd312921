//! Plain-value shapes of inbound events and outbound requests.
//!
//! The runtime never talks to the messaging platform itself: events arrive as
//! these records and every side effect a plugin wants is returned as an
//! [`Outbound`] value for the surrounding process to perform.

use vstd::prelude::*;

verus! {

/// The message an inbound message replies to, as far as the runtime reads it.
pub struct ReplyTarget {
    /// Id of the message being replied to.
    pub message_id: i64,
    /// Whether that message was sent by the bot itself.
    pub from_bot: bool,
    /// Its text, when it was a text message.
    pub text: Option<String>,
}

/// An inbound text message event.
pub struct IncomingMessage {
    /// The conversation it arrived on; the unit of admission control.
    pub chat_id: i64,
    pub message_id: i64,
    pub sender_id: i64,
    /// The raw text; absent for non-text messages.
    pub text: Option<String>,
    /// Set when the message replies to another message.
    pub reply_to: Option<ReplyTarget>,
}

/// An inbound button-press event. `data` carries the routing payload in the
/// form `"<plugin-name>.<key>"`.
pub struct CallbackQuery {
    /// Chat of the message the pressed keyboard is attached to.
    pub chat_id: i64,
    /// Id of the message the pressed keyboard is attached to.
    pub message_id: i64,
    pub data: String,
}

/// Either kind of inbound event.
pub enum Update {
    Message(IncomingMessage),
    Callback(CallbackQuery),
}

/// One labelled button; pressing it sends `key` back as callback data.
pub struct KeyboardButton {
    pub label: String,
    pub key: String,
}

/// Rows of inline buttons attached to an outbound message.
pub struct InlineKeyboard {
    pub rows: Vec<Vec<KeyboardButton>>,
}

/// One outbound request to the messaging platform.
pub enum Outbound {
    /// Post a new message.
    SendMessage {
        chat_id: i64,
        /// Message to attach the reply to, when any.
        reply_to: Option<i64>,
        text: String,
        markdown: bool,
        keyboard: Option<InlineKeyboard>,
        /// Ask the client to force a reply prompt on the recipient.
        force_reply: bool,
    },
    /// Edit a message the bot sent earlier, in place.
    EditMessage {
        chat_id: i64,
        message_id: i64,
        text: String,
        markdown: bool,
        keyboard: Option<InlineKeyboard>,
    },
    /// Acknowledge a callback, optionally with a short notice.
    AnswerCallback { notice: Option<String> },
}

/// A plain reply: a new message in `to_chat` attached to `to_message`.
pub fn reply(to_chat: i64, to_message: i64, text: String) -> (r: Outbound)
    ensures
        r == (Outbound::SendMessage {
            chat_id: to_chat,
            reply_to: Some(to_message),
            text,
            markdown: false,
            keyboard: None,
            force_reply: false,
        }),
{
    Outbound::SendMessage {
        chat_id: to_chat,
        reply_to: Some(to_message),
        text,
        markdown: false,
        keyboard: None,
        force_reply: false,
    }
}

/// A markdown reply, as [`reply`] but rendered with markup.
pub fn reply_md(to_chat: i64, to_message: i64, text: String) -> (r: Outbound)
    ensures
        r == (Outbound::SendMessage {
            chat_id: to_chat,
            reply_to: Some(to_message),
            text,
            markdown: true,
            keyboard: None,
            force_reply: false,
        }),
{
    Outbound::SendMessage {
        chat_id: to_chat,
        reply_to: Some(to_message),
        text,
        markdown: true,
        keyboard: None,
        force_reply: false,
    }
}

} // verus!
