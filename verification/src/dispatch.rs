//! The event dispatcher: admission control first, then every plugin in
//! registration order, with a one-event bypass flag; callbacks go to exactly
//! the plugin named by their payload prefix.

use std::sync::mpsc::Sender;

use vstd::prelude::*;

use crate::guard::SafetyGuard;
use crate::message::callback_ext_spec;
use crate::message::str_eq;
use crate::message::TgCallbackQueryExt;
use crate::name_map::NameMap;
use crate::reminder::pool_callback_rel;
use crate::reminder::pool_process_rel;
use crate::reminder::ReminderPool;
use crate::tracker::track_rel;
use crate::tracker::tracker_process_rel;
use crate::tracker::Tracker;
use crate::tracker::WorkerSignal;
use crate::types::CallbackQuery;
use crate::types::IncomingMessage;
use crate::types::Outbound;
use crate::types::Update;
use crate::session::TS_MAX;
use crate::session::TS_MIN;

verus! {

/// A registered feature unit. The set is closed: each variant carries one
/// plugin's whole state.
pub enum Plugin {
    Reminder(ReminderPool),
    Tracker(Tracker),
}

/// What one plugin hands back for one event.
pub struct PluginResponse {
    /// Requests for the platform, in order.
    pub outbound: Vec<Outbound>,
    /// Suppress the remaining plugins for this event only.
    pub bypass: bool,
    /// Ask the surrounding process to start a tracking worker.
    pub start_tracking: Option<String>,
}

/// What processing one message does to one plugin: each variant forwards
/// its own exact relation, and only the tracker ever asks for a worker.
pub open spec fn plugin_msg_rel(
    pl0: Plugin,
    pl1: Plugin,
    msg: IncomingMessage,
    now: i64,
    out: Seq<Outbound>,
    start: Option<String>,
) -> bool {
    match pl0 {
        Plugin::Reminder(p0) => pl1 matches Plugin::Reminder(p1) && pool_process_rel(
            p0,
            p1,
            msg,
            now,
            out,
        ) && start is None,
        Plugin::Tracker(t0) => pl1 matches Plugin::Tracker(t1) && tracker_process_rel(
            t0,
            t1,
            msg,
            out,
            start,
        ),
    }
}

/// What processing one button press does to one plugin: the reminder pool
/// forwards its relation; the tracker takes no callbacks.
pub open spec fn plugin_cb_rel(
    pl0: Plugin,
    pl1: Plugin,
    query: CallbackQuery,
    now: i64,
    out: Seq<Outbound>,
) -> bool {
    match pl0 {
        Plugin::Reminder(p0) => pl1 matches Plugin::Reminder(p1) && pool_callback_rel(
            p0,
            p1,
            query,
            now,
            out,
        ),
        Plugin::Tracker(_) => pl1 == pl0 && out.len() == 0,
    }
}

impl Plugin {
    /// The stable name callbacks are routed by.
    pub open spec fn spec_name(&self) -> Seq<char> {
        match self {
            Plugin::Reminder(_) => "reminder"@,
            Plugin::Tracker(_) => "tracker"@,
        }
    }

    pub open spec fn wf(&self) -> bool {
        match self {
            Plugin::Reminder(p) => p.wf(),
            Plugin::Tracker(t) => t.wf(),
        }
    }

    pub fn name(&self) -> (r: &'static str)
        ensures
            r@ == self.spec_name(),
    {
        match self {
            Plugin::Reminder(_) => "reminder",
            Plugin::Tracker(_) => "tracker",
        }
    }

    /// Hand an inbound message to this plugin.
    pub fn process(&mut self, msg: &IncomingMessage, now: i64, tz_off: i32) -> (r: PluginResponse)
        requires
            old(self).wf(),
            TS_MIN <= now <= TS_MAX,
            -86400 < tz_off < 86400,
        ensures
            final(self).wf(),
            final(self).spec_name() == old(self).spec_name(),
            !r.bypass,
            plugin_msg_rel(*old(self), *final(self), *msg, now, r.outbound@, r.start_tracking),
    {
        match self {
            Plugin::Reminder(p) => {
                let outbound = p.process(msg, now, tz_off);
                PluginResponse { outbound, bypass: false, start_tracking: None }
            },
            Plugin::Tracker(t) => {
                let (outbound, start_tracking) = t.process(msg);
                PluginResponse { outbound, bypass: false, start_tracking }
            },
        }
    }

    /// Hand a button press to this plugin.
    pub fn process_callback(&mut self, query: &CallbackQuery, now: i64, tz_off: i32) -> (out: Vec<
        Outbound,
    >)
        requires
            old(self).wf(),
            TS_MIN <= now <= TS_MAX,
            -86400 < tz_off < 86400,
        ensures
            final(self).wf(),
            final(self).spec_name() == old(self).spec_name(),
            plugin_cb_rel(*old(self), *final(self), *query, now, out@),
    {
        match self {
            Plugin::Reminder(p) => p.process_callback(query, now, tz_off),
            Plugin::Tracker(_) => Vec::new(),
        }
    }
}

/// What one dispatched event produces.
pub struct DispatchOutcome {
    /// Requests for the platform, in order.
    pub outbound: Vec<Outbound>,
    /// A tracking worker to start, when a plugin asked for one.
    pub start_tracking: Option<String>,
}

/// The first request among the plugins' start-tracking answers, scanning
/// in registration order.
pub open spec fn first_some(s: Seq<Option<String>>) -> Option<String>
    decreases s.len(),
{
    if s.len() == 0 {
        None
    } else {
        match first_some(s.drop_last()) {
            Some(v) => Some(v),
            None => s.last(),
        }
    }
}

/// [`dispatch_msg_rel`] or [`dispatch_cb_rel`], by the event's kind; a
/// callback never starts tracking.
pub open spec fn dispatch_update_rel(
    c0: Context,
    c1: Context,
    update: Update,
    now: i64,
    r: DispatchOutcome,
) -> bool {
    match update {
        Update::Message(m) => dispatch_msg_rel(c0, c1, m, now, r),
        Update::Callback(q) => dispatch_cb_rel(c0, c1, q, now, r.outbound@)
            && r.start_tracking is None,
    }
}

/// The dispatcher state: the ordered plugin stack, the per-event bypass
/// flag, admission control, and name resolution.
pub struct Context {
    pub exts: Vec<Plugin>,
    pub bypass: bool,
    pub guard: SafetyGuard,
    pub names: NameMap,
}

/// What dispatching one message does to the whole dispatcher.
///
/// An unadmitted origin gets exactly one denial and nothing moves. An
/// admitted event reaches every plugin in registration order (our plugins
/// never raise the bypass flag, so none is skipped), and the outcome is
/// precisely the concatenation of what the plugins produced, with the first
/// start-tracking request among them; a pass entered with the bypass flag
/// already up only clears it. The flag is always down afterwards.
pub open spec fn dispatch_msg_rel(
    c0: Context,
    c1: Context,
    msg: IncomingMessage,
    now: i64,
    r: DispatchOutcome,
) -> bool {
    &&& c1.guard == c0.guard
    &&& c1.names == c0.names
    &&& c1.exts@.len() == c0.exts@.len()
    &&& (forall|i: int|
        0 <= i < c0.exts@.len() ==> (#[trigger] c1.exts@[i]).spec_name()
            == c0.exts@[i].spec_name())
    &&& (!c0.guard.spec_contains(msg.chat_id) ==> {
        &&& c1 == c0
        &&& r.outbound@.len() == 1
        &&& (r.outbound@[0] matches Outbound::SendMessage { chat_id, reply_to, .. } && chat_id
            == msg.chat_id && reply_to == Some(msg.message_id))
        &&& r.start_tracking is None
    })
    &&& (c0.guard.spec_contains(msg.chat_id) ==> !c1.bypass)
    &&& (c0.guard.spec_contains(msg.chat_id) && !c0.bypass ==> exists|
        outs: Seq<Seq<Outbound>>,
        starts: Seq<Option<String>>,
    |
        {
            &&& outs.len() == c0.exts@.len()
            &&& starts.len() == c0.exts@.len()
            &&& (forall|i: int|
                0 <= i < c0.exts@.len() ==> #[trigger] plugin_msg_rel(
                    c0.exts@[i],
                    c1.exts@[i],
                    msg,
                    now,
                    outs[i],
                    starts[i],
                ))
            &&& r.outbound@ == outs.flatten_alt()
            &&& r.start_tracking == first_some(starts)
        })
    &&& (c0.guard.spec_contains(msg.chat_id) && c0.bypass ==> c1.exts@ == c0.exts@
        && r.outbound@.len() == 0 && r.start_tracking is None)
}

/// What dispatching one button press does to the whole dispatcher.
///
/// Admission is re-checked against the pressed message's chat. The payload
/// prefix ahead of the first `.` picks at most one plugin: exactly that one
/// handles the press and every other slot stays untouched; an unknown
/// prefix drops the event.
pub open spec fn dispatch_cb_rel(
    c0: Context,
    c1: Context,
    query: CallbackQuery,
    now: i64,
    out: Seq<Outbound>,
) -> bool {
    let prefix = callback_ext_spec(query.cb_data());
    &&& c1.guard == c0.guard
    &&& c1.names == c0.names
    &&& c1.bypass == c0.bypass
    &&& c1.exts@.len() == c0.exts@.len()
    &&& (forall|i: int|
        0 <= i < c0.exts@.len() ==> (#[trigger] c1.exts@[i]).spec_name()
            == c0.exts@[i].spec_name())
    &&& (!c0.guard.spec_contains(query.chat_id) ==> {
        &&& c1 == c0
        &&& out.len() == 1
        &&& (out[0] matches Outbound::SendMessage { chat_id, reply_to, .. } && chat_id
            == query.chat_id && reply_to == Some(query.message_id))
    })
    &&& (c0.guard.spec_contains(query.chat_id) && !c0.has_plugin(prefix) ==> c1 == c0 && out.len()
        == 0)
    &&& (c0.guard.spec_contains(query.chat_id) && c0.has_plugin(prefix) ==> exists|i: int|
        {
            &&& 0 <= i < c0.exts@.len()
            &&& (#[trigger] c0.exts@[i]).spec_name() == prefix
            &&& plugin_cb_rel(c0.exts@[i], c1.exts@[i], query, now, out)
            &&& (forall|j: int|
                0 <= j < c0.exts@.len() && j != i ==> #[trigger] c1.exts@[j] == c0.exts@[j])
        })
}

impl Context {
    /// Plugins are well-formed and their names pairwise distinct, so a
    /// callback prefix names at most one plugin; the guard is well-formed.
    pub open spec fn wf(&self) -> bool {
        &&& self.guard.wf()
        &&& (forall|i: int| 0 <= i < self.exts@.len() ==> (#[trigger] self.exts@[i]).wf())
        &&& (forall|i: int, j: int|
            0 <= i < j < self.exts@.len() ==> (#[trigger] self.exts@[i]).spec_name() != (
            #[trigger] self.exts@[j]).spec_name())
    }

    /// Whether some registered plugin carries `name`.
    pub open spec fn has_plugin(&self, name: Seq<char>) -> bool {
        exists|i: int|
            0 <= i < self.exts@.len() && (#[trigger] self.exts@[i]).spec_name() == name
    }

    pub fn new(guard: SafetyGuard, names: NameMap) -> (c: Context)
        requires
            guard.wf(),
        ensures
            c.wf(),
            c.exts@.len() == 0,
            !c.bypass,
            c.guard == guard,
            c.names == names,
    {
        Context { exts: Vec::new(), bypass: false, guard, names }
    }

    /// Register a plugin at the end of the stack. Registration is refused
    /// when the name is already taken, so callback routing stays
    /// unambiguous.
    pub fn plug_ext(&mut self, plugin: Plugin) -> (ok: bool)
        requires
            old(self).wf(),
            plugin.wf(),
        ensures
            final(self).wf(),
            ok == !old(self).has_plugin(plugin.spec_name()),
            ok ==> final(self).exts@ == old(self).exts@.push(plugin),
            !ok ==> *final(self) == *old(self),
    {
        let pname = plugin.name();
        let mut k: usize = 0;
        while k < self.exts.len()
            invariant
                k <= self.exts@.len(),
                *self == *old(self),
                old(self).wf(),
                plugin.wf(),
                pname@ == plugin.spec_name(),
                forall|i: int|
                    0 <= i < k ==> (#[trigger] self.exts@[i]).spec_name() != pname@,
            decreases self.exts@.len() - k,
        {
            if str_eq(self.exts[k].name(), pname) {
                proof {
                    assert((self.exts@[k as int]).spec_name() == plugin.spec_name());
                }
                return false;
            }
            k += 1;
        }
        self.exts.push(plugin);
        proof {
            assert(self.exts@.last() == plugin);
        }
        true
    }

    /// Raise the bypass flag: the remaining plugins of the current pass are
    /// skipped; the flag clears when the pass ends.
    pub fn set_bypass(&mut self)
        ensures
            *final(self) == (Context { bypass: true, ..*old(self) }),
    {
        self.bypass = true;
    }

    /// The single denial notice an unadmitted origin receives.
    pub fn prohibit_access(&self, msg: &IncomingMessage) -> (o: Outbound)
        ensures
            o matches Outbound::SendMessage { chat_id, reply_to, markdown, keyboard, force_reply, .. }
                && chat_id == msg.chat_id && reply_to == Some(msg.message_id) && !markdown
                && keyboard is None && !force_reply,
    {
        crate::types::reply(
            msg.chat_id,
            msg.message_id,
            String::from_str(
                "You're not permitted to use this bot. This incidence will be reported",
            ),
        )
    }

    /// Dispatch one inbound message; see [`dispatch_msg_rel`].
    pub fn process_message(&mut self, msg: &IncomingMessage, now: i64, tz_off: i32) -> (r:
        DispatchOutcome)
        requires
            old(self).wf(),
            TS_MIN <= now <= TS_MAX,
            -86400 < tz_off < 86400,
        ensures
            final(self).wf(),
            dispatch_msg_rel(*old(self), *final(self), *msg, now, r),
    {
        if !self.guard.is_safe(msg.chat_id) {
            let mut outbound: Vec<Outbound> = Vec::new();
            outbound.push(self.prohibit_access(msg));
            return DispatchOutcome { outbound, start_tracking: None };
        }
        let mut outbound: Vec<Outbound> = Vec::new();
        let mut start_tracking: Option<String> = None;
        let mut processed: Vec<Plugin> = Vec::new();
        let n0 = self.exts.len();
        let ghost orig = self.exts@;
        let ghost mut outs: Seq<Seq<Outbound>> = Seq::empty();
        let ghost mut starts: Seq<Option<String>> = Seq::empty();
        proof {
            assert(orig.len() == n0);
        }
        while self.exts.len() > 0
            invariant
                processed@.len() + self.exts@.len() == orig.len(),
                orig.len() <= usize::MAX,
                orig == old(self).exts@,
                TS_MIN <= now <= TS_MAX,
                -86400 < tz_off < 86400,
                forall|i: int| 0 <= i < self.exts@.len() ==> (#[trigger] self.exts@[i]).wf(),
                forall|i: int| 0 <= i < processed@.len() ==> (#[trigger] processed@[i]).wf(),
                forall|i: int|
                    0 <= i < self.exts@.len() ==> (#[trigger] self.exts@[i]).spec_name()
                        == orig[processed@.len() + i].spec_name(),
                forall|i: int|
                    0 <= i < processed@.len() ==> (#[trigger] processed@[i]).spec_name()
                        == orig[i].spec_name(),
                self.guard == old(self).guard,
                self.names == old(self).names,
                forall|i: int|
                    0 <= i < self.exts@.len() ==> #[trigger] self.exts@[i] == orig[processed@.len()
                        + i],
                !old(self).bypass ==> {
                    &&& !self.bypass
                    &&& outs.len() == processed@.len()
                    &&& starts.len() == processed@.len()
                    &&& (forall|i: int|
                        0 <= i < processed@.len() ==> #[trigger] plugin_msg_rel(
                            orig[i],
                            processed@[i],
                            *msg,
                            now,
                            outs[i],
                            starts[i],
                        ))
                    &&& outbound@ == outs.flatten_alt()
                    &&& start_tracking == first_some(starts)
                },
                old(self).bypass ==> self.bypass && processed@ == orig.subrange(
                    0,
                    processed@.len() as int,
                ) && outbound@.len() == 0 && start_tracking is None,
            decreases self.exts@.len(),
        {
            let mut plugin = self.exts.remove(0);
            if !self.bypass {
                let mut resp = plugin.process(msg, now, tz_off);
                let ghost ro = resp.outbound@;
                let ghost rs = resp.start_tracking;
                outbound.append(&mut resp.outbound);
                if resp.bypass {
                    self.bypass = true;
                }
                if start_tracking.is_none() {
                    start_tracking = resp.start_tracking;
                }
                proof {
                    let prev_outs = outs;
                    let prev_starts = starts;
                    outs = outs.push(ro);
                    starts = starts.push(rs);
                    assert(outs.drop_last() =~= prev_outs);
                    assert(starts.drop_last() =~= prev_starts);
                    assert(outs.last() == ro);
                    assert(starts.last() == rs);
                }
            }
            processed.push(plugin);
            proof {
                if old(self).bypass {
                    assert(processed@ =~= orig.subrange(0, processed@.len() as int));
                }
            }
        }
        self.exts = processed;
        self.bypass = false;
        let r = DispatchOutcome { outbound, start_tracking };
        proof {
            if !old(self).bypass {
                assert(outs.len() == old(self).exts@.len() && starts.len() == old(
                    self,
                ).exts@.len() && (forall|i: int|
                    0 <= i < old(self).exts@.len() ==> #[trigger] plugin_msg_rel(
                        old(self).exts@[i],
                        self.exts@[i],
                        *msg,
                        now,
                        outs[i],
                        starts[i],
                    )) && r.outbound@ == outs.flatten_alt() && r.start_tracking == first_some(
                    starts,
                ));
            } else {
                assert(self.exts@ =~= old(self).exts@);
            }
        }
        r
    }

    /// Dispatch one button press; see [`dispatch_cb_rel`].
    pub fn process_callback(&mut self, query: &CallbackQuery, now: i64, tz_off: i32) -> (out: Vec<
        Outbound,
    >)
        requires
            old(self).wf(),
            TS_MIN <= now <= TS_MAX,
            -86400 < tz_off < 86400,
        ensures
            final(self).wf(),
            dispatch_cb_rel(*old(self), *final(self), *query, now, out@),
    {
        if !self.guard.is_safe(query.chat_id) {
            let mut out: Vec<Outbound> = Vec::new();
            out.push(
                crate::types::reply(
                    query.chat_id,
                    query.message_id,
                    String::from_str(
                        "You're not permitted to use this bot. This incidence will be reported",
                    ),
                ),
            );
            return out;
        }
        let prefix = match query.ext() {
            Some(p) => p,
            None => String::new(),  // unreachable: the prefix always parses
        };
        let mut out: Vec<Outbound> = Vec::new();
        let mut k: usize = 0;
        let n = self.exts.len();
        while k < n
            invariant
                k <= n,
                n == self.exts@.len(),
                *self == *old(self),
                old(self).wf(),
                old(self).guard.spec_contains(query.chat_id),
                TS_MIN <= now <= TS_MAX,
                -86400 < tz_off < 86400,
                prefix@ == callback_ext_spec(query.cb_data()),
                out@.len() == 0,
                forall|i: int|
                    0 <= i < k ==> (#[trigger] self.exts@[i]).spec_name() != prefix@,
            decreases n - k,
        {
            if str_eq(self.exts[k].name(), prefix.as_str()) {
                let mut plugin = self.exts.remove(k);
                let ghost before = plugin;
                let mut o = plugin.process_callback(query, now, tz_off);
                out.append(&mut o);
                self.exts.insert(k, plugin);
                proof {
                    let s0 = old(self).exts@;
                    let s1 = self.exts@;
                    assert(s1.len() == s0.len());
                    assert forall|j: int| 0 <= j < s1.len() && j != k
                        implies #[trigger] s1[j] == s0[j] by {
                        if j < k {
                            assert(s1[j] == s0[j]);
                        } else {
                            assert(s1[j] == s0[j]);
                        }
                    }
                    assert(s1[k as int] == plugin);
                    assert(before == s0[k as int]);
                    assert(plugin_cb_rel(s0[k as int], s1[k as int], *query, now, out@));
                    assert forall|j: int| 0 <= j < s1.len()
                        implies (#[trigger] s1[j]).spec_name() == s0[j].spec_name() && s1[j].wf()
                        by {
                        if j != k {
                            assert(s1[j] == s0[j]);
                        }
                    }
                }
                return out;
            }
            k += 1;
        }
        proof {
            assert(!old(self).has_plugin(prefix@));
        }
        out
    }

    /// Dispatch either kind of event.
    pub fn process_update(&mut self, update: &Update, now: i64, tz_off: i32) -> (r:
        DispatchOutcome)
        requires
            old(self).wf(),
            TS_MIN <= now <= TS_MAX,
            -86400 < tz_off < 86400,
        ensures
            final(self).wf(),
            dispatch_update_rel(*old(self), *final(self), *update, now, r),
    {
        match update {
            Update::Message(msg) => self.process_message(msg, now, tz_off),
            Update::Callback(query) => {
                let outbound = self.process_callback(query, now, tz_off);
                DispatchOutcome { outbound, start_tracking: None }
            },
        }
    }

    /// Dispatch either kind of event against the process clock.
    ///
    /// The clock readings are pinned into the workable range before any
    /// plugin sees them; everything [`process_update`] guarantees for every
    /// time then holds for whatever the clock said.
    pub fn process_update_now(&mut self, update: &Update) -> (r: DispatchOutcome)
        requires
            old(self).wf(),
        ensures
            final(self).wf(),
            exists|now: i64|
                TS_MIN <= now <= TS_MAX && #[trigger] dispatch_update_rel(
                    *old(self),
                    *final(self),
                    *update,
                    now,
                    r,
                ),
    {
        let raw_now = crate::clock::now_ts();
        let now = if raw_now < TS_MIN {
            TS_MIN
        } else if raw_now > TS_MAX {
            TS_MAX
        } else {
            raw_now
        };
        let tz_off = crate::clock::local_utc_offset();
        self.process_update(update, now, tz_off)
    }

    /// Register a freshly started worker with the tracker plugin; `false`
    /// when no tracker plugin is installed. On success, exactly the tracker
    /// slot changes, by [`track_rel`].
    pub fn install_tracker(&mut self, tracking_no: String, link: Sender<WorkerSignal>) -> (ok:
        bool)
        requires
            old(self).wf(),
        ensures
            final(self).wf(),
            final(self).guard == old(self).guard,
            final(self).names == old(self).names,
            final(self).bypass == old(self).bypass,
            final(self).exts@.len() == old(self).exts@.len(),
            ok == (exists|i: int|
                0 <= i < old(self).exts@.len() && (#[trigger] old(self).exts@[i]) is Tracker),
            !ok ==> *final(self) == *old(self),
            ok ==> exists|i: int|
                {
                    &&& 0 <= i < old(self).exts@.len()
                    &&& (#[trigger] old(self).exts@[i]) is Tracker
                    &&& (old(self).exts@[i] matches Plugin::Tracker(t0) && final(self).exts@[i]
                        matches Plugin::Tracker(t1) && track_rel(t0, t1, tracking_no@, link))
                    &&& (forall|j: int|
                        0 <= j < old(self).exts@.len() && j != i ==> #[trigger] final(self).exts@[j]
                            == old(self).exts@[j])
                },
    {
        let mut k: usize = 0;
        let n = self.exts.len();
        while k < n
            invariant
                k <= n,
                n == self.exts@.len(),
                *self == *old(self),
                old(self).wf(),
                forall|i: int| 0 <= i < k ==> !((#[trigger] self.exts@[i]) is Tracker),
            decreases n - k,
        {
            let is_tracker = match &self.exts[k] {
                Plugin::Tracker(_) => true,
                _ => false,
            };
            if is_tracker {
                let plugin = self.exts.remove(k);
                let mut t = match plugin {
                    Plugin::Tracker(t) => t,
                    _ => {
                        proof {
                            assert(false);
                        }
                        Tracker::new()
                    },
                };
                t.track(tracking_no, link);
                self.exts.insert(k, Plugin::Tracker(t));
                proof {
                    let s0 = old(self).exts@;
                    let s1 = self.exts@;
                    assert forall|j: int| 0 <= j < s1.len() && j != k
                        implies #[trigger] s1[j] == s0[j] by {
                        if j < k {
                            assert(s1[j] == s0[j]);
                        } else {
                            assert(s1[j] == s0[j]);
                        }
                    }
                    assert(s1[k as int] == Plugin::Tracker(t));
                    assert forall|j: int| 0 <= j < s1.len()
                        implies (#[trigger] s1[j]).spec_name() == s0[j].spec_name() && s1[j].wf()
                        by {
                        if j != k {
                            assert(s1[j] == s0[j]);
                        }
                    }
                }
                return true;
            }
            k += 1;
        }
        false
    }
}

} // verus!
