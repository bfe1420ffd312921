//! The chat log drain: the addressing and formatting of log lines that get
//! forwarded into a chat. Delivery is outside work; what to send and where
//! is decided here.

use vstd::prelude::*;

verus! {

/// Where forwarded log lines go: which bot token speaks, and into which
/// chat.
pub struct TgDrain {
    pub token: String,
    pub chat_id: i64,
}

impl TgDrain {
    pub fn new(api_token: &str, chat_id: i64) -> (d: TgDrain)
        ensures
            d.token@ == api_token@,
            d.chat_id == chat_id,
    {
        TgDrain { token: String::from_str(api_token), chat_id }
    }
}

/// The rendering of one forwarded log line.
pub open spec fn log_line_str(
    level: Seq<char>,
    module: Seq<char>,
    function: Seq<char>,
    msg: Seq<char>,
) -> Seq<char> {
    "<code>["@ + level + "]"@ + module + function + ":</code> "@ + msg
}

/// Render one log record for the chat, with the level and origin in a
/// fixed-width prefix.
pub fn format_log(level: &str, module: &str, function: &str, msg: &str) -> (r: String)
    ensures
        r@ == log_line_str(level@, module@, function@, msg@),
{
    let mut out = String::from_str("<code>[");
    out.append(level);
    out.append("]");
    out.append(module);
    out.append(function);
    out.append(":</code> ");
    out.append(msg);
    proof {
        reveal_strlit("<code>[");
        reveal_strlit("]");
        reveal_strlit(":</code> ");
        assert(out@ =~= log_line_str(level@, module@, function@, msg@));
    }
    out
}

} // verus!
