//! The configuration-listing plugin: it renders the key-value store on
//! request. The store itself lives outside; the listing works on whatever
//! pairs the caller loaded.

use vstd::prelude::*;

use crate::message::is_cmd_spec;
use crate::message::TgMessageExt;
use crate::types::IncomingMessage;
use crate::types::Outbound;
use crate::util::dec_str;
use crate::util::u64_string;

verus! {

/// The rendering of one configuration pair.
pub open spec fn config_item_str(key: Seq<char>, value: Seq<char>) -> Seq<char> {
    "Key: ["@ + key + "]\nValue:\n"@ + value + "\n"@
}

/// Render one configuration pair.
pub fn format_config_item(key: &str, value: &str) -> (r: String)
    ensures
        r@ == config_item_str(key@, value@),
{
    let mut out = String::from_str("Key: [");
    out.append(key);
    out.append("]\nValue:\n");
    out.append(value);
    out.append("\n");
    proof {
        reveal_strlit("Key: [");
        reveal_strlit("]\nValue:\n");
        reveal_strlit("\n");
        assert(out@ =~= config_item_str(key@, value@));
    }
    out
}

/// The listing body: each pair rendered, separated by `---` rules.
pub open spec fn config_listing_body(confs: Seq<(String, String)>) -> Seq<char>
    decreases confs.len(),
{
    if confs.len() == 0 {
        Seq::empty()
    } else {
        config_listing_body(confs.drop_last()) + config_item_str(
            confs.last().0@,
            confs.last().1@,
        ) + "---\n"@
    }
}

/// The plugin itself; it carries no state of its own.
pub struct Manager {}

impl Manager {
    pub fn new() -> (m: Manager) {
        Manager {  }
    }

    /// On `/list_conf`, render the given configuration pairs; any other
    /// message produces nothing.
    pub fn process(&self, msg: &IncomingMessage, confs: &Vec<(String, String)>) -> (out: Vec<
        Outbound,
    >)
        ensures
            !is_cmd_spec(msg.msg_text(), "list_conf"@) ==> out@.len() == 0,
            is_cmd_spec(msg.msg_text(), "list_conf"@) ==> out@.len() == 1 && (
            out@[0] matches Outbound::SendMessage { chat_id, reply_to, text, .. } && chat_id
                == msg.chat_id && reply_to == Some(msg.message_id) && text@ == ("Listing "@
                + dec_str(confs@.len() as int) + " config items\n---\n"@ + config_listing_body(
                confs@,
            ))),
    {
        let mut out: Vec<Outbound> = Vec::new();
        if !msg.is_cmd("list_conf") {
            return out;
        }
        let mut text = String::from_str("Listing ");
        text.append(u64_string(confs.len() as u64).as_str());
        text.append(" config items\n---\n");
        let mut k: usize = 0;
        while k < confs.len()
            invariant
                k <= confs@.len(),
                text@ == "Listing "@ + dec_str(confs@.len() as int) + " config items\n---\n"@
                    + config_listing_body(confs@.subrange(0, k as int)),
            decreases confs@.len() - k,
        {
            text.append(format_config_item(confs[k].0.as_str(), confs[k].1.as_str()).as_str());
            text.append("---\n");
            proof {
                reveal_strlit("---\n");
                let cur = confs@.subrange(0, k + 1);
                assert(cur.drop_last() =~= confs@.subrange(0, k as int));
                assert(cur.last() == confs@[k as int]);
                assert(text@ =~= "Listing "@ + dec_str(confs@.len() as int)
                    + " config items\n---\n"@ + config_listing_body(cur));
            }
            k += 1;
        }
        proof {
            reveal_strlit("Listing ");
            reveal_strlit(" config items\n---\n");
            assert(confs@.subrange(0, confs@.len() as int) =~= confs@);
        }
        out.push(crate::types::reply(msg.chat_id, msg.message_id, text));
        out
    }
}

} // verus!
