//! The multi-turn interaction session behind `/remind_me`.
//!
//! A session walks three stages: `AwaitingContent` (what to be reminded of),
//! `AwaitingTime` (a candidate fire time adjusted by signed-delta callback
//! keys), and `Ready` (consumed exactly once to build the reminder).

use vstd::prelude::*;

use crate::message::callback_key_spec;
use crate::message::find_from;
use crate::message::is_cmd_spec;
use crate::message::lemma_find_from;
use crate::message::msg_cmd_arg;
use crate::message::str_eq;
use crate::message::TgCallbackQueryExt;
use crate::message::TgMessageExt;
use crate::reminder::Reminder;
use crate::types::CallbackQuery;
use crate::types::IncomingMessage;
use crate::types::InlineKeyboard;
use crate::types::KeyboardButton;
use crate::time::format_human_time;
use crate::types::Outbound;
use crate::util::format_duration;

verus! {

/// A commit is accepted only when the candidate lies strictly more than this
/// many seconds in the future.
pub const MIN_LEAD_SECS: i64 = 10;

/// Smallest timestamp a session works with: a margin below the machine
/// range keeps rendering arithmetic in bounds.
pub const TS_MIN: i64 = i64::MIN + 86400;

/// Greatest timestamp a session works with.
pub const TS_MAX: i64 = i64::MAX - 86400;

/// Where a session stands in the dialogue.
#[derive(Clone, Copy, PartialEq, Eq, Structural, Debug)]
pub enum Stage {
    /// Waiting for the user to reply with the reminder text.
    AwaitingContent,
    /// Waiting for time-adjustment callbacks and a commit.
    AwaitingTime,
    /// All fields collected; consumed once by the owning plugin.
    Ready,
}

/// One in-flight `/remind_me` dialogue.
pub struct SetReminder {
    /// Origin chat of the triggering command.
    pub chat_id: i64,
    /// The triggering command message, used to anchor replies.
    pub message_id: i64,
    /// Collected reminder text.
    pub content: Option<String>,
    /// Candidate fire time (unix seconds).
    pub remind_at: Option<i64>,
    pub stage: Stage,
}

// ---------------------------------------------------------------------------
// The signed-delta grammar of time-adjustment callback keys: `±/<n>/<unit>`.
// ---------------------------------------------------------------------------
pub open spec fn is_digit(c: char) -> bool {
    '0' as u32 <= c as u32 && c as u32 <= '9' as u32
}

pub open spec fn all_digits(s: Seq<char>) -> bool {
    forall|i: int| 0 <= i < s.len() ==> is_digit(#[trigger] s[i])
}

/// The value of a decimal digit string (most significant digit first).
pub open spec fn dec_val(s: Seq<char>) -> int
    decreases s.len(),
{
    if s.len() == 0 {
        0
    } else {
        dec_val(s.drop_last()) * 10 + (s.last() as u32 - '0' as u32)
    }
}

/// Seconds per supported adjustment unit.
pub open spec fn unit_secs(u: Seq<char>) -> Option<int> {
    if u == "min"@ {
        Some(60int)
    } else if u == "hr"@ {
        Some(3600int)
    } else if u == "day"@ {
        Some(86400int)
    } else {
        None
    }
}

/// The signed delta (in seconds) a callback key encodes, or `None` when the
/// key is malformed or the delta does not fit the machine range.
pub open spec fn parse_adjust_spec(k: Seq<char>) -> Option<int> {
    let p1 = find_from(k, '/', 0);
    if p1 >= k.len() {
        None
    } else {
        let sign = k.subrange(0, p1);
        if sign != "+"@ && sign != "-"@ {
            None
        } else {
            let p2 = find_from(k, '/', p1 + 1);
            if p2 >= k.len() {
                None
            } else {
                let digits = k.subrange(p1 + 1, p2);
                let unit = k.subrange(p2 + 1, k.len() as int);
                if digits.len() == 0 || !all_digits(digits) {
                    None
                } else {
                    match unit_secs(unit) {
                        Some(us) => {
                            let v = dec_val(digits) * us;
                            if v > i64::MAX as int {
                                None
                            } else if sign == "-"@ {
                                Some(-v)
                            } else {
                                Some(v)
                            }
                        },
                        None => None,
                    }
                }
            }
        }
    }
}

proof fn lemma_dec_val_nonneg(s: Seq<char>)
    requires
        all_digits(s),
    ensures
        dec_val(s) >= 0,
    decreases s.len(),
{
    if s.len() > 0 {
        assert(all_digits(s.drop_last()));
        lemma_dec_val_nonneg(s.drop_last());
    }
}

proof fn lemma_dec_val_extend(s: Seq<char>, k: int)
    requires
        0 <= k <= s.len(),
        all_digits(s),
        dec_val(s.take(k)) >= 0,
    ensures
        dec_val(s) >= dec_val(s.take(k)),
    decreases s.len() - k,
{
    if k < s.len() {
        assert(s.take(k + 1).drop_last() =~= s.take(k));
        assert(s.take(k + 1).last() == s[k]);
        assert(is_digit(s[k]));
        assert(dec_val(s.take(k + 1)) >= dec_val(s.take(k)));
        lemma_dec_val_extend(s, k + 1);
    } else {
        assert(s.take(k) =~= s);
    }
}

/// Parse the decimal run `t[from..to)`; `None` when empty, non-numeric, or
/// over the `u64` range.
fn parse_dec_range(t: &str, from: usize, to: usize) -> (r: Option<u64>)
    requires
        from <= to <= t@.len(),
    ensures
        r matches Some(v) ==> {
            let sub = t@.subrange(from as int, to as int);
            &&& sub.len() > 0
            &&& all_digits(sub)
            &&& v == dec_val(sub)
        },
        r is None ==> {
            let sub = t@.subrange(from as int, to as int);
            sub.len() == 0 || !all_digits(sub) || dec_val(sub) > u64::MAX as int
        },
{
    let ghost sub = t@.subrange(from as int, to as int);
    if from == to {
        return None;
    }
    let mut acc: u64 = 0;
    let mut i: usize = from;
    while i < to
        invariant
            from <= i <= to <= t@.len(),
            sub == t@.subrange(from as int, to as int),
            all_digits(sub.take(i - from)),
            acc == dec_val(sub.take(i - from)),
        decreases to - i,
    {
        let c = t.get_char(i);
        let u = c as u32;
        proof {
            assert(sub[i - from] == t@[i as int]);
        }
        if u < '0' as u32 || u > '9' as u32 {
            proof {
                assert(!is_digit(sub[i - from]));
            }
            return None;
        }
        let d: u64 = (u - '0' as u32) as u64;
        proof {
            assert(sub.take(i - from + 1).drop_last() =~= sub.take(i - from));
            assert(sub.take(i - from + 1).last() == sub[i - from]);
        }
        let next = match acc.checked_mul(10) {
            Some(m) => m.checked_add(d),
            None => None,
        };
        match next {
            Some(v) => {
                acc = v;
            },
            None => {
                proof {
                    if all_digits(sub) {
                        lemma_dec_val_extend(sub, i - from + 1);
                    }
                }
                return None;
            },
        }
        i += 1;
    }
    proof {
        assert(sub.take(to - from) =~= sub);
    }
    Some(acc)
}

/// Parse the decimal run `t[from..to)` as a list index; `None` when empty,
/// non-numeric, or out of the machine range.
pub fn parse_index(t: &str, from: usize, to: usize) -> (r: Option<usize>)
    requires
        from <= to <= t@.len(),
    ensures
        r matches Some(v) ==> {
            let sub = t@.subrange(from as int, to as int);
            &&& sub.len() > 0
            &&& all_digits(sub)
            &&& v == dec_val(sub)
        },
        r is None ==> {
            let sub = t@.subrange(from as int, to as int);
            sub.len() == 0 || !all_digits(sub) || dec_val(sub) > usize::MAX as int
        },
{
    match parse_dec_range(t, from, to) {
        Some(v) => {
            if v <= usize::MAX as u64 {
                Some(v as usize)
            } else {
                None
            }
        },
        None => {
            proof {
                let sub = t@.subrange(from as int, to as int);
                if sub.len() > 0 && all_digits(sub) {
                    lemma_dec_val_nonneg(sub);
                }
            }
            None
        },
    }
}

/// Parse a time-adjustment callback key into its signed delta in seconds.
pub fn parse_adjust(k: &str) -> (r: Option<i64>)
    ensures
        r matches Some(d) ==> parse_adjust_spec(k@) == Some(d as int),
        r is None ==> parse_adjust_spec(k@) is None,
{
    let n = k.unicode_len();
    let p1 = scan_find_slash(k, 0);
    proof {
        lemma_find_from(k@, '/', 0);
    }
    if p1 >= n {
        return None;
    }
    let sign = k.substring_char(0, p1);
    let sign_plus = str_eq(sign, "+");
    let sign_minus = str_eq(sign, "-");
    if !sign_plus && !sign_minus {
        return None;
    }
    let p2 = scan_find_slash(k, p1 + 1);
    proof {
        lemma_find_from(k@, '/', p1 + 1);
    }
    if p2 >= n {
        return None;
    }
    let digits = match parse_dec_range(k, p1 + 1, p2) {
        Some(v) => v,
        None => {
            proof {
                let dsub = k@.subrange(p1 + 1, p2 as int);
                let usub = k@.subrange(p2 + 1, k@.len() as int);
                if dsub.len() > 0 && all_digits(dsub) && unit_secs(usub) is Some {
                    // over the u64 range, hence over i64::MAX for every unit
                    let us = unit_secs(usub)->0;
                    assert(us == 60 || us == 3600 || us == 86400);
                    assert(dec_val(dsub) * us > i64::MAX as int) by (nonlinear_arith)
                        requires
                            dec_val(dsub) > u64::MAX as int,
                            us == 60 || us == 3600 || us == 86400,
                    ;
                }
            }
            return None;
        },
    };
    let unit = k.substring_char(p2 + 1, n);
    let us: i64 = if str_eq(unit, "min") {
        60
    } else if str_eq(unit, "hr") {
        3600
    } else if str_eq(unit, "day") {
        86400
    } else {
        proof {
            reveal_strlit("min");
            reveal_strlit("hr");
            reveal_strlit("day");
        }
        return None;
    };
    proof {
        reveal_strlit("min");
        reveal_strlit("hr");
        reveal_strlit("day");
        reveal_strlit("+");
        reveal_strlit("-");
        let dsub = k@.subrange(p1 + 1, p2 as int);
        lemma_dec_val_nonneg(dsub);
    }
    if digits > (i64::MAX / 86400) as u64 {
        // a count this large can overflow for some units: multiply checked
        let prod = digits.checked_mul(us as u64);
        match prod {
            Some(p) => {
                if p > i64::MAX as u64 {
                    return None;
                }
                let v = p as i64;
                if sign_minus {
                    Some(-v)
                } else {
                    Some(v)
                }
            },
            None => None,
        }
    } else {
        // small enough that even the largest unit stays in range
        let v = (digits as i64) * us;
        if sign_minus {
            Some(-v)
        } else {
            Some(v)
        }
    }
}

/// The delta a raw callback payload carries, through the routing prefix.
pub open spec fn session_delta(d: Seq<char>) -> Option<int> {
    match callback_key_spec(d) {
        Some(k) => parse_adjust_spec(k),
        None => None,
    }
}

/// One button whose key is namespaced under the reminder plugin.
fn callback_button(label: &str, key: &str) -> (b: KeyboardButton)
    ensures
        b.label@ == label@,
        b.key@ == "reminder."@ + key@,
{
    let mut k = String::from_str("reminder.");
    k.append(key);
    KeyboardButton { label: String::from_str(label), key: k }
}

/// The callback key of the adjustment button at row `i`, column `j` of the
/// time keyboard.
pub open spec fn adjust_key(i: int, j: int) -> Seq<char> {
    if i == 0 {
        if j == 0 {
            "+/1/min"@
        } else if j == 1 {
            "+/5/min"@
        } else {
            "+/30/min"@
        }
    } else if i == 1 {
        if j == 0 {
            "-/1/min"@
        } else if j == 1 {
            "-/5/min"@
        } else {
            "-/30/min"@
        }
    } else if i == 2 {
        if j == 0 {
            "+/1/hr"@
        } else if j == 1 {
            "+/2/hr"@
        } else {
            "+/4/hr"@
        }
    } else if i == 3 {
        if j == 0 {
            "-/1/hr"@
        } else if j == 1 {
            "-/2/hr"@
        } else {
            "-/4/hr"@
        }
    } else if i == 4 {
        if j == 0 {
            "+/1/day"@
        } else if j == 1 {
            "+/5/day"@
        } else {
            "+/30/day"@
        }
    } else {
        if j == 0 {
            "-/1/day"@
        } else if j == 1 {
            "-/5/day"@
        } else {
            "-/30/day"@
        }
    }
}

/// The adjustment keyboard: six rows of three signed deltas, and, when the
/// candidate is committable, a final one-button `Done` row.
pub fn time_keyboard(include_commit: bool) -> (kb: InlineKeyboard)
    ensures
        kb.rows@.len() == (if include_commit {
            7int
        } else {
            6int
        }),
        forall|i: int| 0 <= i < 6 ==> #[trigger] kb.rows@[i]@.len() == 3,
        forall|i: int, j: int|
            0 <= i < 6 && 0 <= j < 3 ==> #[trigger] kb.rows@[i]@[j].key@ == "reminder."@
                + adjust_key(i, j),
        include_commit ==> kb.rows@[6]@.len() == 1 && kb.rows@[6]@[0].key@
            == "reminder.commit_time"@,
{
    let mut rows: Vec<Vec<KeyboardButton>> = Vec::new();

    let mut r0: Vec<KeyboardButton> = Vec::new();
    r0.push(callback_button("+1 min", "+/1/min"));
    r0.push(callback_button("+5 min", "+/5/min"));
    r0.push(callback_button("+30 min", "+/30/min"));
    rows.push(r0);

    let mut r1: Vec<KeyboardButton> = Vec::new();
    r1.push(callback_button("-1 min", "-/1/min"));
    r1.push(callback_button("-5 min", "-/5/min"));
    r1.push(callback_button("-30 min", "-/30/min"));
    rows.push(r1);

    let mut r2: Vec<KeyboardButton> = Vec::new();
    r2.push(callback_button("+1 hour", "+/1/hr"));
    r2.push(callback_button("+2 hours", "+/2/hr"));
    r2.push(callback_button("+4 hours", "+/4/hr"));
    rows.push(r2);

    let mut r3: Vec<KeyboardButton> = Vec::new();
    r3.push(callback_button("-1 hour", "-/1/hr"));
    r3.push(callback_button("-2 hours", "-/2/hr"));
    r3.push(callback_button("-4 hours", "-/4/hr"));
    rows.push(r3);

    let mut r4: Vec<KeyboardButton> = Vec::new();
    r4.push(callback_button("+1 day", "+/1/day"));
    r4.push(callback_button("+5 day", "+/5/day"));
    r4.push(callback_button("+1 month", "+/30/day"));
    rows.push(r4);

    let mut r5: Vec<KeyboardButton> = Vec::new();
    r5.push(callback_button("-1 day", "-/1/day"));
    r5.push(callback_button("-5 day", "-/5/day"));
    r5.push(callback_button("-1 month", "-/30/day"));
    rows.push(r5);

    if include_commit {
        let mut r6: Vec<KeyboardButton> = Vec::new();
        r6.push(callback_button("Done", "commit_time"));
        rows.push(r6);
        proof {
            reveal_strlit("reminder.");
            reveal_strlit("commit_time");
            reveal_strlit("reminder.commit_time");
            assert(rows@[6]@[0].key@ =~= "reminder.commit_time"@);
        }
    }
    InlineKeyboard { rows }
}

/// The algebraic sum of a delta sequence.
pub open spec fn sum_deltas(ds: Seq<int>) -> int
    decreases ds.len(),
{
    if ds.len() == 0 {
        0
    } else {
        sum_deltas(ds.drop_last()) + ds.last()
    }
}

/// Law: time adjustments accumulate algebraically. Whenever a chain of
/// candidate times grows step by step by the deltas `ds` — exactly the
/// relation `on_callback` establishes for each accepted adjustment key —
/// the final candidate equals the first plus the sum of all deltas. Combined
/// with `on_callback`'s commit clause (a commit is accepted if and only if
/// the candidate exceeds `now + MIN_LEAD_SECS`) and `build`'s clause (the
/// artifact fires at the committed candidate), a committed artifact fires at
/// the base time plus the algebraic sum of every applied delta.
pub proof fn lemma_time_adjustments_accumulate(cands: Seq<int>, ds: Seq<int>)
    requires
        cands.len() == ds.len() + 1,
        forall|i: int| 0 <= i < ds.len() ==> cands[i + 1] == cands[i] + ds[i],
    ensures
        cands.last() == cands.first() + sum_deltas(ds),
    decreases ds.len(),
{
    if ds.len() > 0 {
        lemma_time_adjustments_accumulate(cands.drop_last(), ds.drop_last());
        assert(cands.drop_last().last() == cands[ds.len() - 1]);
        assert(cands.last() == cands[ds.len() - 1] + ds[ds.len() - 1]);
    }
}

fn scan_find_slash(t: &str, from: usize) -> (e: usize)
    requires
        from <= t@.len(),
    ensures
        e == find_from(t@, '/', from as int),
        from <= e <= t@.len(),
{
    let n = t.unicode_len();
    let mut i: usize = from;
    while i < n
        invariant
            from <= i <= n,
            n == t@.len(),
            find_from(t@, '/', from as int) == find_from(t@, '/', i as int),
        decreases n - i,
    {
        if t.get_char(i) == '/' {
            return i;
        }
        i += 1;
    }
    i
}

// ---------------------------------------------------------------------------
// The session itself.
// ---------------------------------------------------------------------------
/// What one inbound message does to a session's collected state: a fresh
/// trigger or anything that is not a reply to the bot leaves it alone;
/// while content is awaited, a reply with non-empty text stores it and
/// advances to `AwaitingTime`, and anything else leaves the session as it
/// was (only a prompt goes out).
pub open spec fn message_step(s: SetReminder, msg: IncomingMessage) -> SetReminder {
    if is_cmd_spec(msg.msg_text(), "remind_me"@) {
        s
    } else if !msg.msg_reply_is_bot() {
        s
    } else if !(s.stage is AwaitingContent) {
        s
    } else {
        match msg.text {
            Some(t) => if t@.len() > 0 {
                SetReminder { content: Some(t), stage: Stage::AwaitingTime, ..s }
            } else {
                s
            },
            None => s,
        }
    }
}

impl SetReminder {
    /// A session always carries a candidate time within the workable range,
    /// and a `Ready` session has its content collected: the only state an
    /// artifact can be built from.
    pub open spec fn wf(&self) -> bool {
        &&& self.remind_at matches Some(v) && TS_MIN <= v <= TS_MAX
        &&& (self.stage is Ready || self.stage is AwaitingTime ==> self.content is Some)
    }

    pub open spec fn candidate(&self) -> int {
        self.remind_at->0 as int
    }

    /// Open a session from the triggering command: inline content (the
    /// command argument) skips straight to `AwaitingTime`; the candidate
    /// starts at `now`.
    pub fn init(message: &IncomingMessage, now: i64) -> (s: SetReminder)
        requires
            TS_MIN <= now <= TS_MAX,
        ensures
            s.wf(),
            s.chat_id == message.chat_id,
            s.message_id == message.message_id,
            s.remind_at == Some(now),
            (s.content is None) == (msg_cmd_arg(message.msg_text()) is None),
            s.content matches Some(c) ==> msg_cmd_arg(message.msg_text()) == Some(c@),
            s.stage == (if msg_cmd_arg(message.msg_text()) is None {
                Stage::AwaitingContent
            } else {
                Stage::AwaitingTime
            }),
    {
        let content = message.cmd_arg();
        let stage = match &content {
            Option::None => Stage::AwaitingContent,
            Option::Some(_) => Stage::AwaitingTime,
        };
        SetReminder {
            chat_id: message.chat_id,
            message_id: message.message_id,
            content,
            remind_at: Some(now),
            stage,
        }
    }

    /// Whether the candidate is not strictly more than the minimum lead time
    /// past `now`: such a candidate cannot be committed.
    pub fn duration_too_short(&self, now: i64) -> (r: bool)
        requires
            self.wf(),
        ensures
            r == (self.candidate() <= now + MIN_LEAD_SECS),
    {
        let at = match self.remind_at {
            Some(v) => v,
            None => 0,
        };
        match now.checked_add(MIN_LEAD_SECS) {
            Some(bound) => at <= bound,
            None => true,
        }
    }

    /// The session is complete and may be consumed.
    pub fn ready(&self) -> (r: bool)
        ensures
            r == (self.stage is Ready),
    {
        self.stage == Stage::Ready
    }

    /// The prompt asking for reminder text, sent as a forced reply so the
    /// user's answer comes back marked as a reply to the bot.
    pub fn prompt_set_content(&self) -> (o: Outbound)
        ensures
            o matches Outbound::SendMessage {
                chat_id,
                reply_to,
                markdown,
                keyboard,
                force_reply,
                ..
            } && chat_id == self.chat_id && reply_to == Some(self.message_id) && !markdown
                && keyboard is None && force_reply,
    {
        Outbound::SendMessage {
            chat_id: self.chat_id,
            reply_to: Some(self.message_id),
            text: String::from_str("What do you want to be reminded about?"),
            markdown: false,
            keyboard: None,
            force_reply: true,
        }
    }

    /// The time-selection prompt: the candidate time, how far away it lies,
    /// and the adjustment keyboard; the commit row appears only when the
    /// candidate could actually be committed. Sent fresh or, on later
    /// adjustments, edited in place.
    pub fn prompt_reminder_time(&self, edit_target: Option<(i64, i64)>, now: i64, tz_off: i32) -> (o:
        Outbound)
        requires
            self.wf(),
            TS_MIN <= now <= TS_MAX,
            -86400 < tz_off < 86400,
        ensures
            edit_target is None ==> (o matches Outbound::SendMessage {
                chat_id,
                reply_to,
                markdown,
                keyboard,
                force_reply,
                ..
            } && chat_id == self.chat_id && reply_to is None && !markdown && !force_reply && (
            keyboard matches Some(kb) && kb.rows@.len() == (
            if self.candidate() <= now + MIN_LEAD_SECS {
                6int
            } else {
                7int
            }))),
            edit_target matches Some((c, m)) ==> (o matches Outbound::EditMessage {
                chat_id,
                message_id,
                markdown,
                keyboard,
                ..
            } && chat_id == c && message_id == m && !markdown && (keyboard matches Some(kb)
                && kb.rows@.len() == (
            if self.candidate() <= now + MIN_LEAD_SECS {
                6int
            } else {
                7int
            }))),
    {
        let at = match self.remind_at {
            Some(v) => v,
            None => 0,
        };
        let too_short = self.duration_too_short(now);
        let dur = match at.checked_sub(now) {
            Some(d) => d,
            // saturate a span beyond the machine range
            None => if at >= 0 {
                i64::MAX
            } else {
                -1
            },
        };
        let mut text = String::from_str("*Reminder time:*\n");
        text.append(format_human_time(at, tz_off).as_str());
        text.append("\n(");
        text.append(format_duration(dur).as_str());
        text.append(" from now)\n\nPlease adjust according to your need\n");
        if too_short {
            text.append("_Unable to save this reminder_");
        }
        let keyboard = Some(time_keyboard(!too_short));
        match edit_target {
            None => Outbound::SendMessage {
                chat_id: self.chat_id,
                reply_to: None,
                text,
                markdown: false,
                keyboard,
                force_reply: false,
            },
            Some((chat_id, message_id)) => Outbound::EditMessage {
                chat_id,
                message_id,
                text,
                markdown: false,
                keyboard,
            },
        }
    }

    /// The confirmation rendered onto the prompt message once the commit is
    /// accepted.
    pub fn prompt_finish(&self, edit_chat: i64, edit_message: i64, now: i64, tz_off: i32) -> (o:
        Outbound)
        requires
            self.wf(),
            -86400 < tz_off < 86400,
        ensures
            o matches Outbound::EditMessage { chat_id, message_id, markdown, keyboard, .. }
                && chat_id == edit_chat && message_id == edit_message && !markdown
                && keyboard is None,
    {
        let at = match self.remind_at {
            Some(v) => v,
            None => 0,
        };
        let dur = match at.checked_sub(now) {
            Some(d) => d,
            None => if at >= 0 {
                i64::MAX
            } else {
                -1
            },
        };
        let mut text = String::from_str("Done, I'll remind you at ");
        text.append(format_human_time(at, tz_off).as_str());
        text.append(" (");
        text.append(format_duration(dur).as_str());
        text.append(" from now)");
        Outbound::EditMessage {
            chat_id: edit_chat,
            message_id: edit_message,
            text,
            markdown: false,
            keyboard: None,
        }
    }

    /// Feed an inbound message to the session.
    ///
    /// A fresh `/remind_me` re-prompts without touching collected state;
    /// replies to the bot while content is awaited either store non-empty
    /// text and advance to `AwaitingTime`, or re-prompt on empty or missing
    /// text; everything else is ignored.
    pub fn on_message(&mut self, msg: &IncomingMessage, now: i64, tz_off: i32) -> (out: Vec<
        Outbound,
    >)
        requires
            old(self).wf(),
            TS_MIN <= now <= TS_MAX,
            -86400 < tz_off < 86400,
        ensures
            final(self).wf(),
            *final(self) == message_step(*old(self), *msg),
            is_cmd_spec(msg.msg_text(), "remind_me"@) ==> out@.len() == 1 && out@[0]
                is SendMessage,
            !is_cmd_spec(msg.msg_text(), "remind_me"@) && !msg.msg_reply_is_bot() ==> out@.len()
                == 0,
            !is_cmd_spec(msg.msg_text(), "remind_me"@) && msg.msg_reply_is_bot() && !(old(self).stage is AwaitingContent) ==> out@.len() == 0,
            !is_cmd_spec(msg.msg_text(), "remind_me"@) && msg.msg_reply_is_bot() && old(self).stage is AwaitingContent && (msg.text matches Some(t) && t@.len() > 0) ==> {
                &&& out@.len() == 2
                &&& (out@[0] matches Outbound::EditMessage { chat_id, message_id, .. } && chat_id
                    == msg.chat_id && (msg.reply_to matches Some(rt) && message_id
                    == rt.message_id))
                &&& out@[1] is SendMessage
            },
            !is_cmd_spec(msg.msg_text(), "remind_me"@) && msg.msg_reply_is_bot() && old(self).stage is AwaitingContent && !(msg.text matches Some(t) && t@.len() > 0) ==> {
                &&& out@.len() == 2
                &&& out@[0] is SendMessage
                &&& out@[1] is SendMessage
            },
    {
        let mut out: Vec<Outbound> = Vec::new();
        if msg.is_cmd("remind_me") {
            let o = match self.stage {
                Stage::AwaitingContent => self.prompt_set_content(),
                _ => self.prompt_reminder_time(None, now, tz_off),
            };
            out.push(o);
            return out;
        }
        if !msg.is_reply_to_bot() {
            return out;
        }
        let awaiting = match self.stage {
            Stage::AwaitingContent => true,
            _ => false,
        };
        if !awaiting {
            return out;
        }
        let text: Option<String> = match &msg.text {
            Some(t) => Some(t.clone()),
            None => None,
        };
        let usable = match &text {
            Some(t) => t.as_str().unicode_len() > 0,
            None => false,
        };
        if usable {
            let t = match text {
                Some(t) => t,
                None => String::new(),  // unreachable: `usable` implies text
            };
            let reply_target = match &msg.reply_to {
                Some(rt) => rt.message_id,
                None => 0,  // unreachable: this is a reply to the bot
            };
            let mut ack = String::from_str("Notification content set to ");
            ack.append(t.as_str());
            out.push(
                Outbound::EditMessage {
                    chat_id: msg.chat_id,
                    message_id: reply_target,
                    text: ack,
                    markdown: false,
                    keyboard: None,
                },
            );
            out.push(self.prompt_reminder_time(None, now, tz_off));
            self.content = Some(t);
            self.stage = Stage::AwaitingTime;
        } else {
            out.push(
                Outbound::SendMessage {
                    chat_id: msg.chat_id,
                    reply_to: None,
                    text: String::from_str("Invalid content, please try again"),
                    markdown: false,
                    keyboard: None,
                    force_reply: false,
                },
            );
            out.push(self.prompt_set_content());
        }
        out
    }

    /// Feed a button press to the session.
    ///
    /// Outside `AwaitingTime` nothing happens. A `commit_time` key either
    /// confirms (the candidate lies beyond the minimum lead time) and moves
    /// to `Ready`, or rejects with an alert and stays put. A well-formed
    /// delta key shifts the candidate and re-renders the prompt in place;
    /// a malformed key re-renders without touching any state.
    pub fn on_callback(&mut self, query: &CallbackQuery, now: i64, tz_off: i32) -> (out: Vec<
        Outbound,
    >)
        requires
            old(self).wf(),
            TS_MIN <= now <= TS_MAX,
            -86400 < tz_off < 86400,
        ensures
            final(self).wf(),
            final(self).chat_id == old(self).chat_id,
            final(self).message_id == old(self).message_id,
            final(self).content == old(self).content,
            !(old(self).stage is AwaitingTime) ==> *final(self) == *old(self) && out@.len() == 0,
            old(self).stage is AwaitingTime && callback_key_spec(query.cb_data()) == Some(
                "commit_time"@,
            ) ==> {
                if old(self).candidate() <= now + MIN_LEAD_SECS {
                    // rejected: an alert goes out, nothing moves
                    &&& *final(self) == *old(self)
                    &&& out@.len() == 1
                    &&& (out@[0] matches Outbound::SendMessage { chat_id, .. } && chat_id
                        == query.chat_id)
                } else {
                    // accepted: the prompt message becomes the confirmation
                    &&& final(self).stage is Ready
                    &&& final(self).remind_at == old(self).remind_at
                    &&& out@.len() == 1
                    &&& (out@[0] matches Outbound::EditMessage { chat_id, message_id, .. }
                        && chat_id == query.chat_id && message_id == query.message_id)
                }
            },
            old(self).stage is AwaitingTime && callback_key_spec(query.cb_data()) != Some(
                "commit_time"@,
            ) ==> {
                &&& (match session_delta(query.cb_data()) {
                    Some(d) => if TS_MIN <= old(self).candidate() + d <= TS_MAX {
                        final(self).stage is AwaitingTime && final(self).remind_at == Some(
                            (old(self).candidate() + d) as i64,
                        )
                    } else {
                        *final(self) == *old(self)
                    },
                    None => *final(self) == *old(self),
                })
                // the prompt is edited in place and the press acknowledged
                &&& out@.len() == 2
                &&& (out@[0] matches Outbound::EditMessage { chat_id, message_id, .. } && chat_id
                    == query.chat_id && message_id == query.message_id)
                &&& (out@[1] matches Outbound::AnswerCallback { notice } && notice is None)
            },
    {
        let mut out: Vec<Outbound> = Vec::new();
        let in_time = match self.stage {
            Stage::AwaitingTime => true,
            _ => false,
        };
        if !in_time {
            return out;
        }
        let key = query.key();
        let is_commit = match &key {
            Some(k) => str_eq(k.as_str(), "commit_time"),
            None => false,
        };
        if is_commit {
            if self.duration_too_short(now) {
                out.push(
                    Outbound::SendMessage {
                        chat_id: query.chat_id,
                        reply_to: None,
                        text: String::from_str(
                            "Duration too short or negative, please try another one",
                        ),
                        markdown: false,
                        keyboard: None,
                        force_reply: false,
                    },
                );
            } else {
                self.stage = Stage::Ready;
                out.push(self.prompt_finish(query.chat_id, query.message_id, now, tz_off));
            }
            return out;
        }
        let delta: Option<i64> = match &key {
            Some(k) => parse_adjust(k.as_str()),
            None => None,
        };
        match delta {
            Some(d) => {
                let at = match self.remind_at {
                    Some(v) => v,
                    None => 0,
                };
                match at.checked_add(d) {
                    Some(v) => {
                        if TS_MIN <= v && v <= TS_MAX {
                            self.remind_at = Some(v);
                        }
                    },
                    None => {},
                }
            },
            None => {},
        }
        out.push(
            self.prompt_reminder_time(Some((query.chat_id, query.message_id)), now, tz_off),
        );
        out.push(Outbound::AnswerCallback { notice: None });
        out
    }

    /// Build the artifact: only a complete session yields one, carrying the
    /// collected content, the committed fire time, and `delivered == false`.
    pub fn build(&self, now: i64) -> (r: Option<Reminder>)
        ensures
            (r is Some) == (self.remind_at is Some && self.content is Some),
            r matches Some(rem) ==> {
                &&& rem.remind_at == self.remind_at->0
                &&& rem.set_at == now
                &&& rem.content@ == self.content->0@
                &&& rem.chat_id == self.chat_id
                &&& rem.message_id == self.message_id
                &&& !rem.delivered
            },
    {
        match (&self.remind_at, &self.content) {
            (Some(at), Some(c)) => Some(
                Reminder {
                    remind_at: *at,
                    set_at: now,
                    content: c.clone(),
                    chat_id: self.chat_id,
                    message_id: self.message_id,
                    delivered: false,
                },
            ),
            _ => None,
        }
    }
}

} // verus!
