//! The scheduled artifact a committed session produces, and the plugin that
//! owns the artifacts: listing, deletion, persistence and firing.

use vstd::prelude::*;

use crate::message::is_cmd_spec;
use crate::message::msg_cmd_arg;
use crate::message::str_starts_with;
use crate::message::TgCallbackQueryExt;
use crate::message::TgMessageExt;
use crate::message::msg_cmd_name;
use crate::session::all_digits;
use crate::session::dec_val;
use crate::session::SetReminder;
use crate::session::Stage;
use crate::session::TS_MAX;
use crate::session::TS_MIN;
use crate::time::format_time;
use crate::types::CallbackQuery;
use crate::types::IncomingMessage;
use crate::types::Outbound;
use crate::util::format_duration;
use crate::util::u64_string;

verus! {

/// A scheduled reminder. `delivered` guards the alert: it is sent at most
/// once, however often the firing trigger runs.
pub struct Reminder {
    /// When to fire (unix seconds).
    pub remind_at: i64,
    /// When the reminder was created (unix seconds).
    pub set_at: i64,
    /// Free-text payload.
    pub content: String,
    /// Where the alert goes.
    pub chat_id: i64,
    /// The message the alert replies to.
    pub message_id: i64,
    /// Set once the alert has been sent (or the reminder cancelled).
    pub delivered: bool,
}

impl Clone for Reminder {
    fn clone(&self) -> (r: Self)
        ensures
            r == *self,
    {
        Reminder {
            remind_at: self.remind_at,
            set_at: self.set_at,
            content: self.content.clone(),
            chat_id: self.chat_id,
            message_id: self.message_id,
            delivered: self.delivered,
        }
    }
}

/// What firing does to a reminder: it becomes delivered, and an alert comes
/// out only if it was not delivered before.
pub open spec fn spec_fire(r: Reminder) -> (Reminder, bool) {
    (
        Reminder { delivered: true, ..r },
        !r.delivered,
    )
}

/// Law: the firing trigger delivers at most once. Running the trigger twice
/// from any starting state yields no alert the second time.
pub proof fn lemma_fire_at_most_once(r: Reminder)
    ensures
        !spec_fire(spec_fire(r).0).1,
        spec_fire(r).1 == !r.delivered,
{
}

impl Reminder {
    /// The alert text: the payload, when it was set, and when it fired.
    pub fn describe(&self, now: i64) -> (r: String)
        ensures
            r@.len() > 0,
    {
        let mut out = String::from_str("It's time for ");
        out.append(self.content.as_str());
        out.append("\nSet ");
        let ago = match now.checked_sub(self.set_at) {
            Some(d) => d,
            // the span does not fit the machine range; saturate
            None => if now >= 0 {
                i64::MAX
            } else {
                -1
            },
        };
        out.append(format_duration(ago).as_str());
        out.append(" ago");
        proof {
            reveal_strlit("It's time for ");
        }
        out
    }

    /// Fire the reminder: mark it delivered and, the first time only, hand
    /// back the alert to send.
    pub fn send_alert(&mut self, now: i64) -> (r: Option<Outbound>)
        ensures
            *final(self) == spec_fire(*old(self)).0,
            (r is Some) == spec_fire(*old(self)).1,
            final(self).delivered,
            r matches Some(o) ==> o matches Outbound::SendMessage {
                chat_id, reply_to, markdown, keyboard, force_reply, ..
            } && chat_id == old(self).chat_id && reply_to == Some(old(self).message_id)
                && !markdown && keyboard is None && !force_reply,
    {
        if self.delivered {
            self.delivered = true;
            None
        } else {
            self.delivered = true;
            let text = self.describe(now);
            Some(
                Outbound::SendMessage {
                    chat_id: self.chat_id,
                    reply_to: Some(self.message_id),
                    text,
                    markdown: false,
                    keyboard: None,
                    force_reply: false,
                },
            )
        }
    }
}

/// Keep exactly the reminders that are still worth scheduling at `now`:
/// undelivered ones whose fire time has not already passed (and lies inside
/// the workable timestamp range).
pub open spec fn live_at(r: Reminder, now: int) -> bool {
    now <= r.remind_at <= TS_MAX && !r.delivered
}

/// Restore a reminder list from persistence, discarding entries whose fire
/// time already passed (they are never fired retroactively) and entries
/// already delivered.
pub fn load_reminders(persisted: Vec<Reminder>, now: i64) -> (r: Vec<Reminder>)
    ensures
        r@ == persisted@.filter(|x: Reminder| live_at(x, now as int)),
{
    let mut out: Vec<Reminder> = Vec::new();
    let mut i: usize = 0;
    while i < persisted.len()
        invariant
            i <= persisted@.len(),
            out@ == persisted@.subrange(0, i as int).filter(|x: Reminder| live_at(x, now as int)),
        decreases persisted@.len() - i,
    {
        let x = &persisted[i];
        let keep = x.remind_at >= now && x.remind_at <= TS_MAX && !x.delivered;
        proof {
            let pred = |y: Reminder| live_at(y, now as int);
            let pre = persisted@.subrange(0, i as int);
            let elt = persisted@[i as int];
            let one = seq![elt];
            assert(persisted@.subrange(0, i + 1) =~= pre + one);
            Seq::<Reminder>::filter_distributes_over_add(pre, one, pred);
            assert(one.filter(pred) =~= (if pred(elt) {
                seq![elt]
            } else {
                Seq::<Reminder>::empty()
            })) by {
                reveal_with_fuel(Seq::filter, 2);
                assert(one.drop_last() =~= Seq::<Reminder>::empty());
            }
        }
        if keep {
            out.push(x.clone());
        }
        i += 1;
    }
    proof {
        assert(persisted@.subrange(0, persisted@.len() as int) =~= persisted@);
    }
    out
}

/// Field-by-field sameness of two reminders (text compared by content).
pub open spec fn rem_eq(a: Reminder, b: Reminder) -> bool {
    &&& a.remind_at == b.remind_at
    &&& a.set_at == b.set_at
    &&& a.content@ == b.content@
    &&& a.chat_id == b.chat_id
    &&& a.message_id == b.message_id
    &&& a.delivered == b.delivered
}

fn rem_same(a: &Reminder, b: &Reminder) -> (r: bool)
    ensures
        r == rem_eq(*a, *b),
{
    a.remind_at == b.remind_at && a.set_at == b.set_at && a.content.eq(&b.content) && a.chat_id
        == b.chat_id && a.message_id == b.message_id && a.delivered == b.delivered
}

/// First index at or after `i` holding an artifact equal to `t` (or the
/// length when none does).
pub open spec fn first_match(s: Seq<Reminder>, t: Reminder, i: int) -> int
    decreases s.len() - i,
{
    if 0 <= i < s.len() {
        if rem_eq(s[i], t) {
            i
        } else {
            first_match(s, t, i + 1)
        }
    } else {
        i
    }
}

/// The listed artifact a `/del_<n>` command names: the command must carry a
/// well-formed decimal index into the snapshot of the last listing.
pub open spec fn del_target(
    deletion: Option<Vec<Reminder>>,
    mt: Option<Seq<char>>,
) -> Option<Reminder> {
    match msg_cmd_name(mt) {
        Some(n) => if n.len() > 4 && n.subrange(0, 4) == "del_"@ && all_digits(n.skip(4))
            && dec_val(n.skip(4)) <= usize::MAX as int {
            match deletion {
                Some(d) => if dec_val(n.skip(4)) < d@.len() {
                    Some(d@[dec_val(n.skip(4))])
                } else {
                    None
                },
                None => None,
            }
        } else {
            None
        },
        None => None,
    }
}

/// Whether the text is a `/del_...` command.
pub open spec fn is_del_cmd(mt: Option<Seq<char>>) -> bool {
    msg_cmd_name(mt) matches Some(n) && n.len() >= 4 && n.subrange(0, 4) == "del_"@
}

/// What a deletion command does to the pool: a well-formed `/del_<n>` into
/// the last listing removes the first stored artifact equal to the listed
/// entry and refreshes the listing message in place; a `/del_` command that
/// names nothing answers with an invalid-index notice; anything else does
/// nothing. The session and listing target never move.
pub open spec fn delete_rel(
    p0: ReminderPool,
    p1: ReminderPool,
    msg: IncomingMessage,
    out: Seq<Outbound>,
) -> bool {
    let mt = msg.msg_text();
    &&& p1.set_reminder == p0.set_reminder
    &&& p1.listing_message == p0.listing_message
    &&& (!is_del_cmd(mt) ==> p1 == p0 && out.len() == 0)
    &&& (is_del_cmd(mt) && del_target(p0.deletion, mt) is None ==> p1 == p0 && out.len() == 1
        && (out[0] matches Outbound::SendMessage { chat_id, reply_to, .. } && chat_id
        == msg.chat_id && reply_to == Some(msg.message_id)))
    &&& (is_del_cmd(mt) ==> (match del_target(p0.deletion, mt) {
        Some(t) => {
            let i = first_match(p0.reminders@, t, 0);
            &&& (if i < p0.reminders@.len() {
                p1.reminders@ == p0.reminders@.remove(i)
            } else {
                p1.reminders@ == p0.reminders@
            })
            &&& (p0.listing_message matches Some((c, m)) ==> {
                &&& out.len() == 1
                &&& (out[0] matches Outbound::EditMessage { chat_id, message_id, .. } && chat_id
                    == c && message_id == m)
                &&& (p1.deletion matches Some(d) && d@ == p1.reminders@.filter(
                    |x: Reminder| !x.delivered,
                ))
            })
            &&& (p0.listing_message is None ==> out.len() == 0 && p1.deletion == p0.deletion)
        },
        None => true,
    }))
}

/// What dispatching one message does to the pool, branch by branch: a new
/// trigger installs a fresh session; a reply to the bot feeds the open
/// session by [`message_step`]; `/list_reminders` renders the listing and
/// refreshes the deletion snapshot; `/del_<n>` behaves as [`delete_rel`];
/// everything else leaves the pool exactly as it was.
pub open spec fn pool_process_rel(
    p0: ReminderPool,
    p1: ReminderPool,
    msg: IncomingMessage,
    now: i64,
    out: Seq<Outbound>,
) -> bool {
    let mt = msg.msg_text();
    let triggered = is_cmd_spec(mt, "remind_me"@);
    let feeding = !triggered && msg.msg_reply_is_bot() && p0.set_reminder is Some;
    let listing = !triggered && !feeding && is_cmd_spec(mt, "list_reminders"@);
    let deleting = !triggered && !feeding && !listing && p0.deletion is Some && is_del_cmd(mt);
    &&& (triggered ==> {
        &&& (p1.set_reminder matches Some(s) && s.chat_id == msg.chat_id && s.message_id
            == msg.message_id && s.remind_at == Some(now) && s.stage == (
        if msg_cmd_arg(mt) is None {
            Stage::AwaitingContent
        } else {
            Stage::AwaitingTime
        }))
        &&& p1.reminders@ == p0.reminders@
        &&& p1.deletion == p0.deletion
        &&& p1.listing_message == p0.listing_message
        &&& out.len() == 1
        &&& out[0] is SendMessage
    })
    &&& (feeding ==> {
        &&& (p0.set_reminder matches Some(s0) && p1.set_reminder matches Some(s1) && s1
            == crate::session::message_step(s0, msg))
        &&& p1.reminders@ == p0.reminders@
        &&& p1.deletion == p0.deletion
        &&& p1.listing_message == p0.listing_message
    })
    &&& (listing ==> {
        &&& (p1.deletion matches Some(d) && d@ == p0.reminders@.filter(
            |x: Reminder| !x.delivered,
        ))
        &&& p1.reminders@ == p0.reminders@
        &&& p1.set_reminder == p0.set_reminder
        &&& p1.listing_message == p0.listing_message
        &&& out.len() == 1
        &&& (out[0] matches Outbound::SendMessage { chat_id, reply_to, .. } && chat_id
            == msg.chat_id && reply_to == Some(msg.message_id))
    })
    &&& (deleting ==> delete_rel(p0, p1, msg, out))
    &&& (!triggered && !feeding && !listing && !deleting ==> p1 == p0 && out.len() == 0)
}

/// What dispatching one button press does to the pool: with no session, or
/// one not awaiting a time, nothing moves; an adjustment (or malformed) key
/// shifts the session per its delta and re-renders the prompt in place with
/// an acknowledgement; a commit either rejects with an alert or appends
/// exactly one artifact carrying the session's collected content and fire
/// time, consuming the session.
pub open spec fn pool_callback_rel(
    p0: ReminderPool,
    p1: ReminderPool,
    query: CallbackQuery,
    now: i64,
    out: Seq<Outbound>,
) -> bool {
    let key = crate::message::callback_key_spec(query.cb_data());
    let s0 = p0.set_reminder->0;
    let in_time = p0.set_reminder is Some && s0.stage is AwaitingTime;
    &&& p1.deletion == p0.deletion
    &&& p1.listing_message == p0.listing_message
    &&& (p0.set_reminder is None ==> p1 == p0 && out.len() == 0)
    &&& (p0.set_reminder is Some && !in_time ==> p1 == p0 && out.len() == 0)
    &&& (in_time && key != Some("commit_time"@) ==> {
        &&& (p1.set_reminder matches Some(s1) && (match crate::session::session_delta(
            query.cb_data(),
        ) {
            Some(d) => if TS_MIN <= s0.candidate() + d <= TS_MAX {
                s1 == (SetReminder { remind_at: Some((s0.candidate() + d) as i64), ..s0 })
            } else {
                s1 == s0
            },
            None => s1 == s0,
        }))
        &&& p1.reminders@ == p0.reminders@
        &&& out.len() == 2
        &&& (out[0] matches Outbound::EditMessage { chat_id, message_id, .. } && chat_id
            == query.chat_id && message_id == query.message_id)
        &&& (out[1] matches Outbound::AnswerCallback { notice } && notice is None)
    })
    &&& (in_time && key == Some("commit_time"@) && s0.candidate() <= now
        + crate::session::MIN_LEAD_SECS ==> {
        &&& p1 == p0
        &&& out.len() == 1
        &&& (out[0] matches Outbound::SendMessage { chat_id, .. } && chat_id == query.chat_id)
    })
    &&& (in_time && key == Some("commit_time"@) && s0.candidate() > now
        + crate::session::MIN_LEAD_SECS ==> {
        &&& p1.set_reminder is None
        &&& p1.reminders@.len() == p0.reminders@.len() + 1
        &&& p1.reminders@.subrange(0, p0.reminders@.len() as int) == p0.reminders@
        &&& (p1.reminders@.last() matches Reminder {
            remind_at,
            set_at,
            content,
            chat_id,
            message_id,
            delivered,
        } && remind_at == s0.remind_at->0 && set_at == now && content@ == s0.content->0@
            && chat_id == s0.chat_id && message_id == s0.message_id && !delivered)
        &&& out.len() == 2
        &&& (out[0] matches Outbound::EditMessage { chat_id: ec, message_id: em, .. } && ec
            == query.chat_id && em == query.message_id)
        &&& (out[1] matches Outbound::AnswerCallback { notice } && notice is Some)
    })
}

/// The plugin owning the reminder artifacts: it runs the interactive flow,
/// keeps the scheduled list, lists and deletes on command, and fires what
/// is due.
pub struct ReminderPool {
    /// Scheduled artifacts, in creation order.
    pub reminders: Vec<Reminder>,
    /// The in-flight interactive session, at most one per origin (this
    /// plugin serves one origin set; a new trigger replaces the session).
    pub set_reminder: Option<SetReminder>,
    /// Snapshot shown by the most recent listing; deletion indexes into it.
    pub deletion: Option<Vec<Reminder>>,
    /// Chat and id of the listing message, for editing it in place.
    pub listing_message: Option<(i64, i64)>,
}

impl ReminderPool {
    /// Every artifact's fire time is inside the workable range.
    pub open spec fn artifacts_wf(&self) -> bool {
        forall|i: int|
            0 <= i < self.reminders@.len() ==> TS_MIN <= (
            #[trigger] self.reminders@[i]).remind_at <= TS_MAX
    }

    /// The session, when present, is well-formed.
    pub open spec fn session_ok(&self) -> bool {
        self.set_reminder matches Some(s) ==> s.wf()
    }

    /// The pool invariant: sound artifacts and session, and no `Ready`
    /// session is ever stored — completion is consumed on the spot.
    pub open spec fn wf(&self) -> bool {
        &&& self.artifacts_wf()
        &&& self.session_ok()
        &&& (self.set_reminder matches Some(s) ==> !(s.stage is Ready))
    }

    /// Rebuild the pool from persisted artifacts: stale and delivered ones
    /// are discarded, nothing is in flight.
    pub fn init(persisted: Vec<Reminder>, now: i64) -> (p: ReminderPool)
        requires
            TS_MIN <= now <= TS_MAX,
        ensures
            p.wf(),
            p.reminders@ == persisted@.filter(|x: Reminder| live_at(x, now as int)),
            p.set_reminder is None,
            p.deletion is None,
            p.listing_message is None,
    {
        let reminders = load_reminders(persisted, now);
        proof {
            let pred = |x: Reminder| live_at(x, now as int);
            assert forall|i: int| 0 <= i < reminders@.len()
                implies TS_MIN <= (#[trigger] reminders@[i]).remind_at <= TS_MAX by {
                persisted@.lemma_filter_pred(pred, i);
            }
        }
        ReminderPool { reminders, set_reminder: None, deletion: None, listing_message: None }
    }

    /// The artifacts still pending delivery, for persistence.
    pub fn save(&self) -> (r: Vec<Reminder>)
        ensures
            r@ == self.reminders@.filter(|x: Reminder| !x.delivered),
    {
        let mut out: Vec<Reminder> = Vec::new();
        let mut i: usize = 0;
        while i < self.reminders.len()
            invariant
                i <= self.reminders@.len(),
                out@ == self.reminders@.subrange(0, i as int).filter(|x: Reminder| !x.delivered),
            decreases self.reminders@.len() - i,
        {
            let x = &self.reminders[i];
            proof {
                let pred = |y: Reminder| !y.delivered;
                let pre = self.reminders@.subrange(0, i as int);
                let elt = self.reminders@[i as int];
                let one = seq![elt];
                assert(self.reminders@.subrange(0, i + 1) =~= pre + one);
                Seq::<Reminder>::filter_distributes_over_add(pre, one, pred);
                assert(one.filter(pred) =~= (if pred(elt) {
                    seq![elt]
                } else {
                    Seq::<Reminder>::empty()
                })) by {
                    reveal_with_fuel(Seq::filter, 2);
                    assert(one.drop_last() =~= Seq::<Reminder>::empty());
                }
            }
            if !x.delivered {
                out.push(x.clone());
            }
            i += 1;
        }
        proof {
            assert(self.reminders@.subrange(0, self.reminders@.len() as int) =~= self.reminders@);
        }
        out
    }

    /// The artifacts a listing shows: the pending ones, in order.
    pub fn list(&self) -> (r: Vec<Reminder>)
        ensures
            r@ == self.reminders@.filter(|x: Reminder| !x.delivered),
    {
        self.save()
    }

    /// Record where the listing message ended up, so a later deletion can
    /// refresh it in place.
    pub fn note_listing_message(&mut self, chat_id: i64, message_id: i64)
        ensures
            *final(self) == (ReminderPool {
                listing_message: Some((chat_id, message_id)),
                ..*old(self)
            }),
    {
        self.listing_message = Some((chat_id, message_id));
    }

    /// Consume a completed session: append the built artifact, clear the
    /// session, and acknowledge. Anything short of `Ready` is left alone.
    fn settle_new_reminder(&mut self, reply_to: Option<(i64, i64)>, now: i64) -> (out: Vec<
        Outbound,
    >)
        requires
            old(self).artifacts_wf(),
            old(self).session_ok(),
        ensures
            final(self).wf(),
            final(self).deletion == old(self).deletion,
            final(self).listing_message == old(self).listing_message,
            !(old(self).set_reminder matches Some(s) && s.stage is Ready) ==> *final(self) == *old(self) && out@.len() == 0,
            (old(self).set_reminder matches Some(s) && s.stage is Ready) ==> {
                &&& final(self).set_reminder is None
                &&& final(self).reminders@.len() == old(self).reminders@.len() + 1
                &&& final(self).reminders@.subrange(0, old(self).reminders@.len() as int) == old(self).reminders@
                &&& (final(self).reminders@.last() matches Reminder {
                    remind_at,
                    set_at,
                    content,
                    chat_id,
                    message_id,
                    delivered,
                } && old(self).set_reminder matches Some(s2) && remind_at == s2.remind_at->0
                    && set_at == now && content@ == s2.content->0@ && chat_id == s2.chat_id
                    && message_id == s2.message_id && !delivered)
                &&& out@.len() == 1
                &&& (reply_to matches Some((c, m)) ==> (out@[0] matches Outbound::SendMessage {
                    chat_id, reply_to: rt, ..
                } && chat_id == c && rt == Some(m)))
                &&& (reply_to is None ==> (out@[0] matches Outbound::AnswerCallback { notice }
                    && notice is Some))
            },
    {
        let mut out: Vec<Outbound> = Vec::new();
        let ready = match &self.set_reminder {
            Some(s) => s.ready(),
            None => false,
        };
        if !ready {
            return out;
        }
        let built = match &self.set_reminder {
            Some(s) => s.build(now),
            None => None,
        };
        match built {
            Some(rem) => {
                let ghost pre = self.reminders@;
                self.reminders.push(rem);
                proof {
                    assert(self.reminders@.subrange(0, pre.len() as int) =~= pre);
                }
                match reply_to {
                    Some((chat, msg)) => {
                        out.push(
                            crate::types::reply(chat, msg, String::from_str("Reminder set")),
                        );
                    },
                    None => {
                        out.push(
                            Outbound::AnswerCallback {
                                notice: Some(String::from_str("Reminder set")),
                            },
                        );
                    },
                }
                self.set_reminder = None;
            },
            None => {},
        }
        out
    }

    /// Route an inbound message.
    ///
    /// `/remind_me` always opens a fresh session — an in-flight one is
    /// discarded, never merged. A reply to the bot feeds the session;
    /// `/list_reminders` renders the listing; `/del_<n>` deletes out of the
    /// last listing.
    pub fn process(&mut self, msg: &IncomingMessage, now: i64, tz_off: i32) -> (out: Vec<Outbound>)
        requires
            old(self).wf(),
            TS_MIN <= now <= TS_MAX,
            -86400 < tz_off < 86400,
        ensures
            final(self).wf(),
            pool_process_rel(*old(self), *final(self), *msg, now, out@),
    {
        proof {
            reveal_strlit("remind_me");
            reveal_strlit("list_reminders");
            assert("remind_me"@.len() == 9);
            assert("list_reminders"@.len() == 14);
        }
        let mut out: Vec<Outbound> = Vec::new();
        if msg.is_cmd("remind_me") {
            let mut session = SetReminder::init(msg, now);
            let mut o = session.on_message(msg, now, tz_off);
            out.append(&mut o);
            self.set_reminder = Some(session);
            let mut o2 = self.settle_new_reminder(
                Some((msg.chat_id, msg.message_id)),
                now,
            );
            out.append(&mut o2);
            return out;
        }
        if msg.is_reply_to_bot() && self.set_reminder.is_some() {
            let mut session = match self.set_reminder.take() {
                Some(s) => s,
                None => SetReminder::init(msg, now),  // unreachable: checked above
            };
            let mut o = session.on_message(msg, now, tz_off);
            out.append(&mut o);
            self.set_reminder = Some(session);
            let mut o2 = self.settle_new_reminder(
                Some((msg.chat_id, msg.message_id)),
                now,
            );
            out.append(&mut o2);
            return out;
        }
        if msg.is_cmd("list_reminders") {
            let mut o = self.list_reminders(msg.chat_id, msg.message_id, false, tz_off);
            out.append(&mut o);
            return out;
        }
        let is_del = match msg.cmd_name() {
            Some(name) => str_starts_with(name.as_str(), "del_"),
            None => false,
        };
        if self.deletion.is_some() && is_del {
            let mut o = self.delete_reminder(msg, tz_off);
            out.append(&mut o);
        }
        out
    }

    /// Route a button press: it feeds the session, and a commit that
    /// completes the session settles the artifact.
    pub fn process_callback(&mut self, query: &CallbackQuery, now: i64, tz_off: i32) -> (out: Vec<
        Outbound,
    >)
        requires
            old(self).wf(),
            TS_MIN <= now <= TS_MAX,
            -86400 < tz_off < 86400,
        ensures
            final(self).wf(),
            pool_callback_rel(*old(self), *final(self), *query, now, out@),
    {
        let mut out: Vec<Outbound> = Vec::new();
        if self.set_reminder.is_none() {
            return out;
        }
        let mut session = match self.set_reminder.take() {
            Some(s) => s,
            None => {
                proof {
                    assert(false);
                }
                return out;
            },
        };
        let mut o = session.on_callback(query, now, tz_off);
        out.append(&mut o);
        self.set_reminder = Some(session);
        let mut o2 = self.settle_new_reminder(None, now);
        out.append(&mut o2);
        out
    }

    /// Render the listing: each pending artifact with its fire time and a
    /// `/del_<n>` handle, or a `no reminders` line. The listing snapshot
    /// becomes the deletion index space.
    pub fn list_reminders(&mut self, chat_id: i64, message_id: i64, edit_mode: bool, tz_off: i32) -> (out: Vec<
        Outbound,
    >)
        requires
            old(self).wf(),
            -86400 < tz_off < 86400,
        ensures
            final(self).wf(),
            final(self).reminders@ == old(self).reminders@,
            final(self).set_reminder == old(self).set_reminder,
            final(self).listing_message == old(self).listing_message,
            (final(self).deletion matches Some(d) && d@ == old(self).reminders@.filter(
                |x: Reminder| !x.delivered,
            )),
            out@.len() == 1,
            edit_mode ==> (match old(self).listing_message {
                Some((c, m)) => out@[0] matches Outbound::EditMessage {
                    chat_id: ec,
                    message_id: em,
                    ..
                } && ec == c && em == m,
                None => true,
            }),
            !edit_mode || old(self).listing_message is None ==> (out@[0]
                matches Outbound::SendMessage { chat_id: sc, reply_to, .. } && sc == chat_id
                && reply_to == Some(message_id)),
    {
        let shown = self.list();
        proof {
            let pred = |x: Reminder| !x.delivered;
            assert forall|k: int| 0 <= k < shown@.len()
                implies TS_MIN <= (#[trigger] shown@[k]).remind_at <= TS_MAX by {
                let e = shown@[k];
                assert(self.reminders@.filter(pred).contains(e));
                self.reminders@.lemma_filter_contains_rev(pred, e);
                let j = choose|j: int|
                    0 <= j < self.reminders@.len() && self.reminders@[j] == e;
                assert(TS_MIN <= self.reminders@[j].remind_at <= TS_MAX);
            }
        }
        let mut text = String::from_str("Reminders (");
        text.append(u64_string(shown.len() as u64).as_str());
        text.append(")\n----------\n");
        let mut i: usize = 0;
        while i < shown.len()
            invariant
                i <= shown@.len(),
                forall|k: int|
                    0 <= k < shown@.len() ==> TS_MIN <= (#[trigger] shown@[k]).remind_at <= TS_MAX,
                -86400 < tz_off < 86400,
            decreases shown@.len() - i,
        {
            text.append(format_time(shown[i].remind_at, tz_off).as_str());
            text.append(": ");
            text.append(shown[i].content.as_str());
            text.append(" (/del_");
            text.append(u64_string(i as u64).as_str());
            text.append(")\n");
            i += 1;
        }
        if shown.len() == 0 {
            text.append("no reminders\n");
        }
        let mut out: Vec<Outbound> = Vec::new();
        let edit_target = if edit_mode {
            self.listing_message
        } else {
            None
        };
        match edit_target {
            Some((c, m)) => {
                out.push(
                    Outbound::EditMessage {
                        chat_id: c,
                        message_id: m,
                        text,
                        markdown: false,
                        keyboard: None,
                    },
                );
            },
            None => {
                out.push(
                    Outbound::SendMessage {
                        chat_id,
                        reply_to: Some(message_id),
                        text,
                        markdown: false,
                        keyboard: None,
                        force_reply: false,
                    },
                );
            },
        }
        self.deletion = Some(shown);
        out
    }

    /// Delete the `/del_<n>`-th entry of the last listing: the first stored
    /// artifact equal to it is removed, and the listing message refreshed.
    pub fn delete_reminder(&mut self, msg: &IncomingMessage, tz_off: i32) -> (out: Vec<Outbound>)
        requires
            old(self).wf(),
            -86400 < tz_off < 86400,
        ensures
            final(self).wf(),
            delete_rel(*old(self), *final(self), *msg, out@),
    {
        let mut out: Vec<Outbound> = Vec::new();
        let name = match msg.cmd_name() {
            Some(n) => n,
            None => {
                return out;
            },
        };
        let name_str = name.as_str();
        if !str_starts_with(name_str, "del_") {
            return out;
        }
        proof {
            reveal_strlit("del_");
            assert(name@.skip(4) =~= name@.subrange(4, name@.len() as int));
        }
        let nlen = name_str.unicode_len();
        let idx = match crate::session::parse_index(name_str, 4, nlen) {
            Some(v) => v,
            None => {
                out.push(
                    crate::types::reply(
                        msg.chat_id,
                        msg.message_id,
                        String::from_str("Invalid index, please try another one"),
                    ),
                );
                return out;
            },
        };
        let target: Option<Reminder> = match &self.deletion {
            Some(d) => {
                if idx < d.len() {
                    Some(d[idx].clone())
                } else {
                    None
                }
            },
            None => None,
        };
        let target = match target {
            Some(t) => t,
            None => {
                out.push(
                    crate::types::reply(
                        msg.chat_id,
                        msg.message_id,
                        String::from_str("Invalid index, please try another one"),
                    ),
                );
                return out;
            },
        };
        let mut loc: usize = 0;
        let mut found = false;
        while loc < self.reminders.len() && !found
            invariant
                loc <= self.reminders@.len(),
                *self == *old(self),
                first_match(self.reminders@, target, 0) == first_match(
                    self.reminders@,
                    target,
                    loc as int,
                ),
                found ==> loc < self.reminders@.len() && rem_eq(
                    self.reminders@[loc as int],
                    target,
                ),
            decreases self.reminders@.len() - loc + (if found {
                0int
            } else {
                1int
            }),
        {
            if rem_same(&self.reminders[loc], &target) {
                found = true;
            } else {
                loc += 1;
            }
        }
        proof {
            if found {
                assert(first_match(old(self).reminders@, target, 0) == loc);
            } else {
                assert(first_match(old(self).reminders@, target, 0)
                    == old(self).reminders@.len());
            }
        }
        if found {
            let ghost pre = self.reminders@;
            self.reminders.remove(loc);
            proof {
                assert forall|i: int| 0 <= i < self.reminders@.len()
                    implies TS_MIN <= (#[trigger] self.reminders@[i]).remind_at <= TS_MAX by {
                    if i < loc {
                        assert(self.reminders@[i] == pre[i]);
                    } else {
                        assert(self.reminders@[i] == pre[i + 1]);
                    }
                }
            }
        }
        match self.listing_message {
            Some(_) => {
                let mut o = self.list_reminders(msg.chat_id, msg.message_id, true, tz_off);
                out.append(&mut o);
            },
            None => {},
        }
        out
    }

    /// The firing trigger: deliver every due artifact. Each alert is guarded
    /// by `delivered`, so a second run over the same artifacts emits nothing.
    pub fn fire_due(&mut self, now: i64) -> (out: Vec<Outbound>)
        requires
            old(self).wf(),
        ensures
            final(self).wf(),
            final(self).reminders@.len() == old(self).reminders@.len(),
            final(self).set_reminder == old(self).set_reminder,
            forall|i: int|
                0 <= i < old(self).reminders@.len() ==> #[trigger] final(self).reminders@[i] == (
                if old(self).reminders@[i].remind_at <= now {
                    spec_fire(old(self).reminders@[i]).0
                } else {
                    old(self).reminders@[i]
                }),
            // exactly the due-and-undelivered artifacts produce an alert
            out@.len() == Seq::new(
                old(self).reminders@.len(),
                |i: int| old(self).reminders@[i],
            ).filter(|r: Reminder| r.remind_at <= now && !r.delivered).len(),
    {
        let mut out: Vec<Outbound> = Vec::new();
        let mut i: usize = 0;
        let ghost orig = self.reminders@;
        while i < self.reminders.len()
            invariant
                i <= self.reminders@.len(),
                self.reminders@.len() == orig.len(),
                old(self).wf(),
                orig == old(self).reminders@,
                self.set_reminder == old(self).set_reminder,
                self.deletion == old(self).deletion,
                self.listing_message == old(self).listing_message,
                forall|k: int|
                    i <= k < orig.len() ==> #[trigger] self.reminders@[k] == orig[k],
                forall|k: int|
                    0 <= k < i ==> #[trigger] self.reminders@[k] == (if orig[k].remind_at <= now {
                        spec_fire(orig[k]).0
                    } else {
                        orig[k]
                    }),
                out@.len() == Seq::new(i as nat, |k: int| orig[k]).filter(
                    |r: Reminder| r.remind_at <= now && !r.delivered,
                ).len(),
            decreases self.reminders@.len() - i,
        {
            proof {
                let pred = |r: Reminder| r.remind_at <= now && !r.delivered;
                let pre = Seq::new(i as nat, |k: int| orig[k]);
                let cur = Seq::new(i as nat + 1, |k: int| orig[k]);
                let one = seq![orig[i as int]];
                assert(cur =~= pre + one);
                Seq::<Reminder>::filter_distributes_over_add(pre, one, pred);
                assert(one.filter(pred) =~= (if pred(orig[i as int]) {
                    seq![orig[i as int]]
                } else {
                    Seq::<Reminder>::empty()
                })) by {
                    reveal_with_fuel(Seq::filter, 2);
                    assert(one.drop_last() =~= Seq::<Reminder>::empty());
                }
            }
            let due = self.reminders[i].remind_at <= now;
            if due {
                let mut rem = self.reminders[i].clone();
                let alert = rem.send_alert(now);
                self.reminders.set(i, rem);
                match alert {
                    Some(o) => {
                        out.push(o);
                    },
                    None => {},
                }
            }
            i += 1;
        }
        out
    }
}

} // verus!
