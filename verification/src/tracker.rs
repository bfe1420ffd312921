//! Shipment tracking: one background worker per tracked parcel, and the
//! foreground registry that starts, probes, and stops them.
//!
//! A worker owns its [`ProgressTracker`] state exclusively and is reached
//! only through a control channel carrying [`WorkerSignal`] values. The
//! registry never shares memory with a worker: liveness is observed by
//! whether a send is accepted, and state leaves a worker only as a
//! [`TrackerState`] snapshot sent back over a reply channel.

use std::sync::mpsc::Sender;

use vstd::prelude::*;

use crate::message::is_cmd_spec;
use crate::message::msg_cmd_arg;
use crate::message::TgMessageExt;
use crate::types::IncomingMessage;
use crate::types::Outbound;
use crate::util::u64_string;

verus! {

/// Declares `std::sync::mpsc::Sender` so channel ends can sit in registry
/// entries and signals; the type stays opaque here.
#[verifier::external_type_specification]
#[verifier::external_body]
#[verifier::reject_recursive_types(T)]
pub struct ExSender<T>(Sender<T>);

/// One step of progress reported by the carrier.
pub struct ProgressItem {
    pub time: String,
    /// What happened.
    pub context: String,
    pub location: Option<String>,
}

/// The carrier's view of one parcel: tracking number, carrier code, a
/// delivered flag (`"1"` when complete), and the progress steps, newest
/// first.
pub struct Progress {
    pub nu: String,
    pub com: String,
    pub ischeck: String,
    pub data: Vec<ProgressItem>,
}

impl Clone for ProgressItem {
    fn clone(&self) -> (r: Self)
        ensures
            r.time@ == self.time@,
            r.context@ == self.context@,
            (r.location is Some) == (self.location is Some),
            r.location matches Some(l) ==> (self.location matches Some(l2) && l@ == l2@),
    {
        ProgressItem {
            time: self.time.clone(),
            context: self.context.clone(),
            location: match &self.location {
                Some(l) => Some(l.clone()),
                None => None,
            },
        }
    }
}

/// A persistable snapshot of one worker's state.
pub struct TrackerState {
    pub tracking_no: String,
    pub last_msg_id: Option<i64>,
    pub ack_len: usize,
    pub chat_id: i64,
}

/// The control signals a worker accepts out of band.
pub enum WorkerSignal {
    /// The periodic timer: re-fetch and compare.
    Tick,
    /// Liveness probe; accepting it is the whole answer.
    Ping,
    /// Stop without further reporting.
    Quit,
    /// Send a state snapshot back over the carried channel.
    Save(Sender<TrackerState>),
    /// Re-emit the current report even when nothing changed.
    Report,
}

/// Relies on `std::sync::mpsc::Sender::send`: it returns `Ok` exactly when
/// the receiving end is still open. Nothing is promised here: the outcome
/// depends on what another thread has done with the receiver.
#[verifier::external_body]
pub(crate) fn send_signal<T>(link: &Sender<T>, value: T) -> (ok: bool) {
    link.send(value).is_ok()
}

/// Relies on `std::sync::mpsc::Sender::clone`: the clone feeds the same
/// receiver.
#[verifier::external_body]
pub(crate) fn clone_link<T>(link: &Sender<T>) -> (r: Sender<T>) {
    link.clone()
}

/// The state a background worker owns for one parcel.
pub struct ProgressTracker {
    /// The latest fetched carrier state.
    pub progress: Progress,
    /// The report message sent last, edited or replied to by later reports.
    pub last_msg_id: Option<i64>,
    /// How many progress steps were already acknowledged to the chat.
    pub ack_len: usize,
    /// Where reports go.
    pub chat_id: i64,
}

/// One rendered progress line: the step's time and what happened.
pub open spec fn item_line(it: ProgressItem) -> Seq<char> {
    "`"@ + it.time@ + "` - "@ + it.context@ + "\n"@
}

/// The rendering of progress steps, one line each, in the given order.
pub open spec fn lines_of(items: Seq<ProgressItem>) -> Seq<char>
    decreases items.len(),
{
    if items.len() == 0 {
        Seq::empty()
    } else {
        lines_of(items.drop_last()) + item_line(items.last())
    }
}

/// The full report text for `data` with `ack` steps acknowledged: the
/// acknowledged (older) steps oldest-first, then, when anything is new, a
/// marker and the new steps oldest-first.
pub open spec fn progress_text_spec(data: Seq<ProgressItem>, ack: int) -> Seq<char> {
    let mid = data.len() - ack;
    let old_part = data.subrange(mid, data.len() as int).reverse();
    let new_part = data.subrange(0, mid).reverse();
    if new_part.len() == 0 {
        lines_of(old_part)
    } else {
        lines_of(old_part) + "-- _new progress below_ --\n"@ + lines_of(new_part)
    }
}

/// Copy the slice `v[from..to)` in reverse order.
fn reversed_slice(v: &Vec<ProgressItem>, from: usize, to: usize) -> (r: Vec<ProgressItem>)
    requires
        from <= to <= v@.len(),
    ensures
        r@.len() == to - from,
        forall|i: int|
            0 <= i < r@.len() ==> item_line(#[trigger] r@[i]) == item_line(
                v@.subrange(from as int, to as int).reverse()[i],
            ),
{
    let mut r: Vec<ProgressItem> = Vec::new();
    let mut k: usize = 0;
    while k < to - from
        invariant
            from <= to <= v@.len(),
            k <= to - from,
            r@.len() == k,
            forall|i: int|
                0 <= i < k ==> item_line(#[trigger] r@[i]) == item_line(v@[to - 1 - i]),
        decreases to - from - k,
    {
        r.push(v[to - 1 - k].clone());
        k += 1;
    }
    proof {
        let sub = v@.subrange(from as int, to as int);
        assert forall|i: int| 0 <= i < r@.len()
            implies item_line(#[trigger] r@[i]) == item_line(sub.reverse()[i]) by {
            assert(sub.reverse()[i] == sub[sub.len() - 1 - i]);
            assert(sub[sub.len() - 1 - i] == v@[to - 1 - i]);
        }
    }
    r
}

/// Append one line per item, in order.
fn append_lines(out: &mut String, items: &Vec<ProgressItem>)
    ensures
        final(out)@ == old(out)@ + lines_of(items@),
{
    let ghost items_v = items@;
    let mut k: usize = 0;
    while k < items.len()
        invariant
            k <= items@.len(),
            items@ == items_v,
            out@ == old(out)@ + lines_of(items@.subrange(0, k as int)),
        decreases items@.len() - k,
    {
        out.append("`");
        out.append(items[k].time.as_str());
        out.append("` - ");
        out.append(items[k].context.as_str());
        out.append("\n");
        proof {
            reveal_strlit("`");
            reveal_strlit("` - ");
            reveal_strlit("\n");
            let cur = items@.subrange(0, k + 1);
            assert(cur.drop_last() =~= items@.subrange(0, k as int));
            assert(cur.last() == items@[k as int]);
            assert(out@ =~= old(out)@ + lines_of(cur));
        }
        k += 1;
    }
    proof {
        assert(items@.subrange(0, items@.len() as int) =~= items@);
    }
}

impl ProgressTracker {
    /// The acknowledged cursor never runs past the data.
    pub open spec fn wf(&self) -> bool {
        self.ack_len <= self.progress.data@.len()
    }

    /// A fresh worker state from an initial fetch: nothing acknowledged yet.
    pub fn new(progress: Progress, chat_id: i64, last_msg_id: Option<i64>) -> (t: ProgressTracker)
        ensures
            t.wf(),
            t.progress == progress,
            t.chat_id == chat_id,
            t.last_msg_id == last_msg_id,
            t.ack_len == 0,
    {
        ProgressTracker { progress, last_msg_id, ack_len: 0, chat_id }
    }

    /// Restore a worker state from a snapshot and a fresh fetch; the saved
    /// cursor is kept, clamped to the fetched data.
    pub fn from_state(state: &TrackerState, progress: Progress) -> (t: ProgressTracker)
        ensures
            t.wf(),
            t.progress == progress,
            t.chat_id == state.chat_id,
            t.last_msg_id == state.last_msg_id,
            t.ack_len == (if state.ack_len <= progress.data@.len() {
                state.ack_len as int
            } else {
                progress.data@.len() as int
            }),
    {
        let ack = if state.ack_len <= progress.data.len() {
            state.ack_len
        } else {
            progress.data.len()
        };
        ProgressTracker {
            progress,
            last_msg_id: state.last_msg_id,
            ack_len: ack,
            chat_id: state.chat_id,
        }
    }

    /// A snapshot for persistence, answered to a `Save` signal.
    pub fn from_tracker(&self) -> (s: TrackerState)
        ensures
            s.tracking_no@ == self.progress.nu@,
            s.last_msg_id == self.last_msg_id,
            s.ack_len == self.ack_len,
            s.chat_id == self.chat_id,
    {
        TrackerState {
            tracking_no: self.progress.nu.clone(),
            last_msg_id: self.last_msg_id,
            ack_len: self.ack_len,
            chat_id: self.chat_id,
        }
    }

    /// The carrier reported terminal completion.
    pub fn done(&self) -> (r: bool)
        ensures
            r == (self.progress.ischeck@ == "1"@),
    {
        crate::message::str_eq(self.progress.ischeck.as_str(), "1")
    }

    /// Take a fetch result: a successful fetch replaces the carrier state
    /// (the cursor clamps to it); a failed fetch changes nothing, and the
    /// next tick retries.
    pub fn update_progress(&mut self, fetched: Option<Progress>)
        requires
            old(self).wf(),
        ensures
            final(self).wf(),
            final(self).chat_id == old(self).chat_id,
            final(self).last_msg_id == old(self).last_msg_id,
            fetched matches Some(p) ==> final(self).progress == p && final(self).ack_len == (
            if old(self).ack_len <= p.data@.len() {
                old(self).ack_len as int
            } else {
                p.data@.len() as int
            }),
            fetched is None ==> *final(self) == *old(self),
    {
        match fetched {
            Some(p) => {
                if self.ack_len > p.data.len() {
                    self.ack_len = p.data.len();
                }
                self.progress = p;
            },
            None => {},
        }
    }

    /// More steps than the acknowledged cursor are present.
    pub fn is_updated(&self) -> (r: bool)
        ensures
            r == (self.progress.data@.len() != self.ack_len),
    {
        self.progress.data.len() != self.ack_len
    }

    /// Acknowledge everything currently fetched.
    pub fn update_ack_len(&mut self)
        ensures
            *final(self) == (ProgressTracker {
                ack_len: final(self).ack_len,
                ..*old(self)
            }),
            final(self).ack_len == old(self).progress.data@.len(),
            final(self).wf(),
    {
        self.ack_len = self.progress.data.len();
    }

    /// The report body for the current state.
    pub fn progress_text(&self) -> (r: String)
        requires
            self.wf(),
        ensures
            r@ == progress_text_spec(self.progress.data@, self.ack_len as int),
    {
        let data = &self.progress.data;
        let mid = data.len() - self.ack_len;
        let old_items = reversed_slice(data, mid, data.len());
        let new_items = reversed_slice(data, 0, mid);
        let mut text = String::new();
        append_lines(&mut text, &old_items);
        proof {
            lemma_lines_of_same(old_items@, data@.subrange(mid as int, data@.len() as int).reverse());
        }
        if new_items.len() == 0 {
            return text;
        }
        text.append("-- _new progress below_ --\n");
        append_lines(&mut text, &new_items);
        proof {
            reveal_strlit("-- _new progress below_ --\n");
            lemma_lines_of_same(new_items@, data@.subrange(0, mid as int).reverse());
        }
        text
    }

    /// Decide on a report: when something is new — or a report is forced —
    /// hand back the body to send and acknowledge the steps it covers.
    pub fn report_progress(&mut self, force: bool) -> (r: Option<String>)
        requires
            old(self).wf(),
        ensures
            final(self).wf(),
            final(self).progress == old(self).progress,
            final(self).chat_id == old(self).chat_id,
            final(self).last_msg_id == old(self).last_msg_id,
            old(self).progress.data@.len() == old(self).ack_len && !force ==> r is None
                && *final(self) == *old(self),
            old(self).progress.data@.len() != old(self).ack_len || force ==> (r matches Some(t)
                && t@ == progress_text_spec(old(self).progress.data@, old(self).ack_len as int)
                && final(self).ack_len == old(self).progress.data@.len()),
    {
        if !self.is_updated() && !force {
            return None;
        }
        let body = self.progress_text();
        self.update_ack_len();
        Some(body)
    }

    /// Remember where the last report ended up, so the next edits or
    /// replies to it.
    pub fn note_report_msg(&mut self, msg_id: i64)
        ensures
            *final(self) == (ProgressTracker { last_msg_id: Some(msg_id), ..*old(self) }),
    {
        self.last_msg_id = Some(msg_id);
    }

    /// The final notice once the carrier reports completion.
    pub fn report_done(&self) -> (o: Outbound)
        ensures
            o matches Outbound::SendMessage { chat_id, reply_to, markdown, keyboard, force_reply, .. }
                && chat_id == self.chat_id && reply_to == self.last_msg_id && !markdown
                && keyboard is None && !force_reply,
    {
        Outbound::SendMessage {
            chat_id: self.chat_id,
            reply_to: self.last_msg_id,
            text: String::from_str(
                "This parcel was delivered; tracking stops (use /cleanup to drop dead trackers)",
            ),
            markdown: false,
            keyboard: None,
            force_reply: false,
        }
    }

    /// One timer tick, after the out-of-band fetch: take the fetch result,
    /// report when something changed, and on terminal completion emit the
    /// final notice and ask to quit.
    pub fn on_tick(&mut self, fetched: Option<Progress>) -> (r: (Option<String>, Option<Outbound>, bool))
        requires
            old(self).wf(),
        ensures
            final(self).wf(),
            final(self).chat_id == old(self).chat_id,
            // quitting is decided exactly by the carrier's completion flag
            r.2 == (final(self).progress.ischeck@ == "1"@),
            (r.1 is Some) == r.2,
            fetched is None ==> final(self).progress == old(self).progress,
            fetched matches Some(p) ==> final(self).progress == p,
            final(self).last_msg_id == old(self).last_msg_id,
            // the report is owed exactly when the post-fetch data runs past
            // the cursor, and then it covers precisely the new steps
            ({
                let d1 = (match fetched {
                    Some(p) => p,
                    None => old(self).progress,
                }).data@;
                let a0: int = (match fetched {
                    Some(p) => if old(self).ack_len <= p.data@.len() {
                        old(self).ack_len as int
                    } else {
                        p.data@.len() as int
                    },
                    None => old(self).ack_len as int,
                });
                &&& (d1.len() != a0 ==> (r.0 matches Some(t) && t@ == progress_text_spec(d1, a0)
                    && final(self).ack_len == d1.len()))
                &&& (d1.len() == a0 ==> r.0 is None && final(self).ack_len == a0)
            }),
    {
        self.update_progress(fetched);
        let report = self.report_progress(false);
        if self.done() {
            let notice = self.report_done();
            (report, Some(notice), true)
        } else {
            (report, None, false)
        }
    }
}

/// One registry entry: the tracked key and the control channel of its
/// worker.
pub struct TrackEntry {
    pub key: String,
    pub link: Sender<WorkerSignal>,
}

/// The foreground plugin: a registry of live workers, one per tracking
/// number.
pub struct Tracker {
    pub trackers: Vec<TrackEntry>,
}

/// The entries whose flag is set, in order.
pub open spec fn keep_flags(entries: Seq<TrackEntry>, flags: Seq<bool>) -> Seq<TrackEntry>
    decreases entries.len(),
{
    if entries.len() == 0 {
        Seq::empty()
    } else {
        let rest = keep_flags(entries.drop_last(), flags.drop_last());
        if flags.len() > 0 && flags[entries.len() - 1] {
            rest.push(entries.last())
        } else {
            rest
        }
    }
}

proof fn lemma_keep_flags_membership(entries: Seq<TrackEntry>, flags: Seq<bool>)
    requires
        entries.len() == flags.len(),
    ensures
        keep_flags(entries, flags).len() <= entries.len(),
        forall|k: int|
            0 <= k < keep_flags(entries, flags).len() ==> exists|i: int|
                0 <= i < entries.len() && #[trigger] keep_flags(entries, flags)[k] == entries[i]
                    && flags[i],
    decreases entries.len(),
{
    if entries.len() > 0 {
        lemma_keep_flags_membership(entries.drop_last(), flags.drop_last());
        let kept = keep_flags(entries, flags);
        let rest = keep_flags(entries.drop_last(), flags.drop_last());
        assert forall|k: int| 0 <= k < kept.len() implies exists|i: int|
            0 <= i < entries.len() && #[trigger] kept[k] == entries[i] && flags[i] by {
            if k < rest.len() {
                assert(kept[k] == rest[k]);
                let i = choose|i: int|
                    0 <= i < entries.drop_last().len() && #[trigger] rest[k]
                        == entries.drop_last()[i] && flags.drop_last()[i];
                assert(kept[k] == entries[i] && flags[i]);
            } else {
                assert(kept[k] == entries[entries.len() - 1] && flags[entries.len() - 1]);
            }
        }
    }
}

proof fn lemma_keep_flags_contains(entries: Seq<TrackEntry>, flags: Seq<bool>, i: int)
    requires
        entries.len() == flags.len(),
        0 <= i < entries.len(),
        flags[i],
    ensures
        exists|k: int|
            0 <= k < keep_flags(entries, flags).len() && #[trigger] keep_flags(entries, flags)[k]
                == entries[i],
    decreases entries.len(),
{
    let kept = keep_flags(entries, flags);
    let rest = keep_flags(entries.drop_last(), flags.drop_last());
    if i == entries.len() - 1 {
        assert(kept[kept.len() - 1] == entries[i]);
    } else {
        lemma_keep_flags_contains(entries.drop_last(), flags.drop_last(), i);
        let k = choose|k: int|
            0 <= k < rest.len() && #[trigger] rest[k] == entries.drop_last()[i];
        assert(kept[k] == entries[i]);
    }
}

proof fn lemma_keep_flags_distinct(entries: Seq<TrackEntry>, flags: Seq<bool>)
    requires
        entries.len() == flags.len(),
        forall|i: int, j: int|
            0 <= i < j < entries.len() ==> (#[trigger] entries[i]).key@ != (
            #[trigger] entries[j]).key@,
    ensures
        forall|i: int, j: int|
            0 <= i < j < keep_flags(entries, flags).len() ==> (#[trigger] keep_flags(
                entries,
                flags,
            )[i]).key@ != (#[trigger] keep_flags(entries, flags)[j]).key@,
    decreases entries.len(),
{
    if entries.len() > 0 {
        lemma_keep_flags_distinct(entries.drop_last(), flags.drop_last());
        lemma_keep_flags_membership(entries.drop_last(), flags.drop_last());
        let kept = keep_flags(entries, flags);
        let rest = keep_flags(entries.drop_last(), flags.drop_last());
        assert forall|i: int, j: int| 0 <= i < j < kept.len()
            implies (#[trigger] kept[i]).key@ != (#[trigger] kept[j]).key@ by {
            if j < rest.len() {
                assert(kept[i] == rest[i] && kept[j] == rest[j]);
            } else {
                assert(kept[j] == entries[entries.len() - 1]);
                assert(kept[i] == rest[i]);
                let s = choose|s: int|
                    0 <= s < entries.drop_last().len() && #[trigger] rest[i]
                        == entries.drop_last()[s] && flags.drop_last()[s];
                assert(entries[s].key@ != entries[entries.len() - 1].key@);
            }
        }
    }
}

/// Law: probing-and-cleaning removes exactly the dead entries. For any
/// registry with pairwise-distinct keys and any liveness outcome `flags`,
/// a key survives [`keep_flags`] — the exact contract of `cleanup_with` —
/// if and only if its probe succeeded.
pub proof fn lemma_cleanup_keeps_exactly(entries: Seq<TrackEntry>, flags: Seq<bool>, i: int)
    requires
        entries.len() == flags.len(),
        forall|a: int, b: int|
            0 <= a < b < entries.len() ==> (#[trigger] entries[a]).key@ != (
            #[trigger] entries[b]).key@,
        0 <= i < entries.len(),
    ensures
        (exists|k: int|
            0 <= k < keep_flags(entries, flags).len() && (#[trigger] keep_flags(entries, flags)[k]).key@
                == entries[i].key@) <==> flags[i],
{
    let kept = keep_flags(entries, flags);
    if flags[i] {
        lemma_keep_flags_contains(entries, flags, i);
        let k = choose|k: int| 0 <= k < kept.len() && #[trigger] kept[k] == entries[i];
        assert((kept[k]).key@ == entries[i].key@);
    }
    if exists|k: int|
        0 <= k < kept.len() && (#[trigger] kept[k]).key@ == entries[i].key@ {
        let k = choose|k: int| 0 <= k < kept.len() && (#[trigger] kept[k]).key@ == entries[i].key@;
        lemma_keep_flags_membership(entries, flags);
        let s = choose|s: int|
            0 <= s < entries.len() && #[trigger] kept[k] == entries[s] && flags[s];
        if s != i {
            assert(entries[s].key@ != entries[i].key@);
        }
        assert(flags[i]);
    }
}

/// What registering a worker does to the registry: a slot already keyed
/// `key` has exactly its channel replaced (the old worker was told to
/// quit); a new key appends one entry; nothing else moves.
pub open spec fn track_rel(
    t0: Tracker,
    t1: Tracker,
    key: Seq<char>,
    link: Sender<WorkerSignal>,
) -> bool {
    &&& t1.has_key(key)
    &&& (t0.has_key(key) ==> {
        &&& t1.trackers@.len() == t0.trackers@.len()
        &&& exists|i: int|
            {
                &&& 0 <= i < t0.trackers@.len()
                &&& (#[trigger] t0.trackers@[i]).key@ == key
                &&& t1.trackers@[i].key@ == key
                &&& t1.trackers@[i].link == link
                &&& (forall|j: int|
                    0 <= j < t0.trackers@.len() && j != i ==> #[trigger] t1.trackers@[j]
                        == t0.trackers@[j])
            }
    })
    &&& (!t0.has_key(key) ==> {
        &&& t1.trackers@.len() == t0.trackers@.len() + 1
        &&& t1.trackers@.subrange(0, t0.trackers@.len() as int) == t0.trackers@
        &&& t1.trackers@.last().key@ == key
        &&& t1.trackers@.last().link == link
    })
}

/// What stopping a worker does to the registry: the matched slot (when
/// there is one) disappears and every other entry stays in place.
pub open spec fn untrack_rel(t0: Tracker, t1: Tracker, key: Seq<char>) -> bool {
    &&& !t1.has_key(key)
    &&& (!t0.has_key(key) ==> t1 == t0)
    &&& (t0.has_key(key) ==> exists|i: int|
        0 <= i < t0.trackers@.len() && (#[trigger] t0.trackers@[i]).key@ == key && t1.trackers@
            == t0.trackers@.remove(i))
}

/// What one tracking command does, command by command: `/track <id>` hands
/// the start request back and touches nothing; `/untrack <id>` behaves as
/// [`untrack_rel`]; `/list` renders the registry; `/query` asks a worker to
/// re-report; `/cleanup` keeps some probe-selected subsequence of entries;
/// anything else leaves the registry exactly as it was.
pub open spec fn tracker_process_rel(
    t0: Tracker,
    t1: Tracker,
    msg: IncomingMessage,
    out: Seq<Outbound>,
    start: Option<String>,
) -> bool {
    let mt = msg.msg_text();
    let known = is_cmd_spec(mt, "track"@) || is_cmd_spec(mt, "untrack"@) || is_cmd_spec(
        mt,
        "list"@,
    ) || is_cmd_spec(mt, "query"@) || is_cmd_spec(mt, "cleanup"@);
    &&& (is_cmd_spec(mt, "track"@) ==> t1 == t0 && (match msg_cmd_arg(mt) {
        Some(a) => start matches Some(no) && no@ == a && out.len() == 0,
        None => start is None && out.len() == 1 && (out[0] matches Outbound::SendMessage {
            chat_id,
            reply_to,
            ..
        } && chat_id == msg.chat_id && reply_to == Some(msg.message_id)),
    }))
    &&& (is_cmd_spec(mt, "untrack"@) ==> start is None && out.len() == 1 && (match msg_cmd_arg(
        mt,
    ) {
        Some(no) => untrack_rel(t0, t1, no),
        None => t1 == t0,
    }))
    &&& (is_cmd_spec(mt, "list"@) ==> t1 == t0 && start is None && out.len() == 1)
    &&& (is_cmd_spec(mt, "query"@) ==> t1 == t0 && start is None && (match msg_cmd_arg(mt) {
        Some(_) => out.len() == 0,
        None => out.len() == 1,
    }))
    &&& (is_cmd_spec(mt, "cleanup"@) ==> start is None && out.len() == 1 && (exists|
        flags: Seq<bool>,
    |
        flags.len() == t0.trackers@.len() && t1.trackers@ == #[trigger] keep_flags(
            t0.trackers@,
            flags,
        )))
    &&& (!known ==> t1 == t0 && out.len() == 0 && start is None)
}

impl Tracker {
    /// The key at each registry slot.
    pub open spec fn keys(&self) -> Seq<Seq<char>> {
        Seq::new(self.trackers@.len(), |i: int| self.trackers@[i].key@)
    }

    /// At most one worker per tracking number.
    pub open spec fn wf(&self) -> bool {
        forall|i: int, j: int|
            0 <= i < j < self.trackers@.len() ==> (#[trigger] self.trackers@[i]).key@ != (
            #[trigger] self.trackers@[j]).key@
    }

    /// Whether some worker is registered under `key`.
    pub open spec fn has_key(&self, key: Seq<char>) -> bool {
        exists|i: int|
            0 <= i < self.trackers@.len() && (#[trigger] self.trackers@[i]).key@ == key
    }

    pub fn new() -> (t: Tracker)
        ensures
            t.wf(),
            t.trackers@.len() == 0,
    {
        Tracker { trackers: Vec::new() }
    }

    /// How many workers are registered.
    pub fn count(&self) -> (n: usize)
        ensures
            n == self.trackers@.len(),
    {
        self.trackers.len()
    }

    fn find(&self, key: &str) -> (r: Option<usize>)
        ensures
            r matches Some(i) ==> i < self.trackers@.len() && self.trackers@[i as int].key@
                == key@,
            r is None ==> !self.has_key(key@),
    {
        let mut k: usize = 0;
        while k < self.trackers.len()
            invariant
                k <= self.trackers@.len(),
                forall|i: int| 0 <= i < k ==> (#[trigger] self.trackers@[i]).key@ != key@,
            decreases self.trackers@.len() - k,
        {
            if crate::message::str_eq(self.trackers[k].key.as_str(), key) {
                return Some(k);
            }
            k += 1;
        }
        None
    }

    /// A liveness probe: the worker is alive exactly when its channel still
    /// accepts a `Ping`.
    pub fn is_alive(link: &Sender<WorkerSignal>) -> (r: bool) {
        send_signal(link, WorkerSignal::Ping)
    }

    /// Register a worker for `tracking_no`. A worker already registered
    /// under the same key is told to quit first and replaced: never two
    /// simultaneous workers for one key.
    pub fn track(&mut self, tracking_no: String, link: Sender<WorkerSignal>)
        requires
            old(self).wf(),
        ensures
            final(self).wf(),
            track_rel(*old(self), *final(self), tracking_no@, link),
    {
        match self.find(tracking_no.as_str()) {
            Some(i) => {
                send_signal(&self.trackers[i].link, WorkerSignal::Quit);
                self.trackers.set(i, TrackEntry { key: tracking_no, link });
                proof {
                    let fi = self.trackers@[i as int];
                    assert(fi.key@ == tracking_no@);
                }
            },
            None => {
                self.trackers.push(TrackEntry { key: tracking_no, link });
                proof {
                    assert(self.trackers@.subrange(0, old(self).trackers@.len() as int)
                        =~= old(self).trackers@);
                    let n = self.trackers@.len() - 1;
                    assert(self.trackers@[n].key@ == tracking_no@);
                }
            },
        }
    }

    /// Stop and forget the worker for `tracking_no`, when there is one.
    pub fn untrack(&mut self, tracking_no: &str) -> (found: bool)
        requires
            old(self).wf(),
        ensures
            final(self).wf(),
            found == old(self).has_key(tracking_no@),
            !final(self).has_key(tracking_no@),
            !found ==> *final(self) == *old(self),
            // the survivors are exactly the old entries minus the match
            found ==> exists|i: int|
                0 <= i < old(self).trackers@.len() && (#[trigger] old(self).trackers@[i]).key@
                    == tracking_no@ && final(self).trackers@ == old(self).trackers@.remove(i),
    {
        match self.find(tracking_no) {
            Some(i) => {
                send_signal(&self.trackers[i].link, WorkerSignal::Quit);
                self.trackers.remove(i);
                proof {
                    let s0 = old(self).trackers@;
                    let s1 = self.trackers@;
                    assert forall|a: int, b: int| 0 <= a < b < s1.len()
                        implies (#[trigger] s1[a]).key@ != (#[trigger] s1[b]).key@ by {
                        let a0: int = if a < i {
                            a
                        } else {
                            a + 1
                        };
                        let b0: int = if b < i {
                            b
                        } else {
                            b + 1
                        };
                        assert(s1[a] == s0[a0] && s1[b] == s0[b0]);
                    }
                    assert forall|k: int| 0 <= k < s1.len()
                        implies (#[trigger] s1[k]).key@ != tracking_no@ by {
                        let k0: int = if k < i {
                            k
                        } else {
                            k + 1
                        };
                        assert(s1[k] == s0[k0]);
                        if k0 != i {
                            assert(s0[k0].key@ != s0[i as int].key@);
                        }
                    }
                }
                true
            },
            None => {
                proof {
                    assert(!self.has_key(tracking_no@));
                }
                false
            },
        }
    }

    /// Ask the worker for `tracking_no` to re-emit its report.
    pub fn query(&self, tracking_no: &str) -> (r: bool)
        ensures
            !self.has_key(tracking_no@) ==> !r,
    {
        match self.find(tracking_no) {
            Some(i) => send_signal(&self.trackers[i].link, WorkerSignal::Report),
            None => false,
        }
    }

    /// Probe every worker; slot `i` of the result says whether worker `i`
    /// answered.
    pub fn probe(&self) -> (r: Vec<bool>)
        ensures
            r@.len() == self.trackers@.len(),
    {
        let mut r: Vec<bool> = Vec::new();
        let mut k: usize = 0;
        while k < self.trackers.len()
            invariant
                k <= self.trackers@.len(),
                r@.len() == k,
            decreases self.trackers@.len() - k,
        {
            r.push(Self::is_alive(&self.trackers[k].link));
            k += 1;
        }
        r
    }

    /// Drop the entries whose probe failed, keeping the live ones
    /// untouched and in order; the count of dropped entries comes back.
    pub fn cleanup_with(&mut self, alive: &Vec<bool>) -> (removed: usize)
        requires
            old(self).wf(),
            alive@.len() == old(self).trackers@.len(),
        ensures
            final(self).wf(),
            final(self).trackers@ == keep_flags(old(self).trackers@, alive@),
            removed == old(self).trackers@.len() - final(self).trackers@.len(),
    {
        let ghost orig = self.trackers@;
        let mut kept: Vec<TrackEntry> = Vec::new();
        let before = self.trackers.len();
        let mut k: usize = 0;
        while self.trackers.len() > 0
            invariant
                k + self.trackers@.len() == orig.len(),
                orig.len() <= usize::MAX,
                alive@.len() == orig.len(),
                self.trackers@ == orig.subrange(k as int, orig.len() as int),
                kept@ == keep_flags(orig.subrange(0, k as int), alive@.subrange(0, k as int)),
                kept@.len() <= k,
            decreases self.trackers@.len(),
        {
            let e = self.trackers.remove(0);
            proof {
                let ep = orig.subrange(0, k + 1);
                let fp = alive@.subrange(0, k + 1);
                assert(ep.drop_last() =~= orig.subrange(0, k as int));
                assert(fp.drop_last() =~= alive@.subrange(0, k as int));
                assert(ep.last() == orig[k as int]);
                assert(e == orig[k as int]);
                assert(self.trackers@ =~= orig.subrange(k + 1, orig.len() as int));
            }
            if alive[k] {
                kept.push(e);
            }
            k += 1;
        }
        proof {
            assert(orig.subrange(0, orig.len() as int) =~= orig);
            assert(alive@.subrange(0, alive@.len() as int) =~= alive@);
        }
        self.trackers = kept;
        let after = self.trackers.len();
        proof {
            lemma_keep_flags_membership(orig, alive@);
            lemma_keep_flags_distinct(orig, alive@);
        }
        before - after
    }

    /// Probe everything and drop what is dead.
    pub fn cleanup(&mut self) -> (removed: usize)
        requires
            old(self).wf(),
        ensures
            final(self).wf(),
            removed == old(self).trackers@.len() - final(self).trackers@.len(),
            exists|flags: Seq<bool>|
                flags.len() == old(self).trackers@.len() && final(self).trackers@ == keep_flags(
                    old(self).trackers@,
                    flags,
                ),
    {
        let flags = self.probe();
        let removed = self.cleanup_with(&flags);
        proof {
            assert(flags@.len() == old(self).trackers@.len() && final(self).trackers@
                == keep_flags(old(self).trackers@, flags@));
        }
        removed
    }
}

/// One listing line: a liveness tag and the tracked key.
pub open spec fn entry_line(key: Seq<char>, alive: bool) -> Seq<char> {
    (if alive {
        "`[alive]`\t"@
    } else {
        "`[dead ]`\t"@
    }) + key + "\n"@
}

/// The listing body: one line per registry slot, in order.
pub open spec fn list_lines(entries: Seq<TrackEntry>, flags: Seq<bool>) -> Seq<char>
    decreases entries.len(),
{
    if entries.len() == 0 {
        Seq::empty()
    } else {
        list_lines(entries.drop_last(), flags.drop_last()) + entry_line(
            entries.last().key@,
            if flags.len() > 0 {
                flags[entries.len() - 1]
            } else {
                false
            },
        )
    }
}

/// The whole listing: a count header and the per-worker lines.
pub open spec fn list_text_spec(entries: Seq<TrackEntry>, flags: Seq<bool>) -> Seq<char> {
    ">>> Tracking "@ + crate::util::dec_str(entries.len() as int) + " items <<<\n"@ + list_lines(
        entries,
        flags,
    )
}

impl Tracker {
    /// Render the listing for the given liveness pattern.
    pub fn list_with(&self, alive: &Vec<bool>) -> (r: String)
        requires
            alive@.len() == self.trackers@.len(),
        ensures
            r@ == list_text_spec(self.trackers@, alive@),
    {
        let mut out = String::from_str(">>> Tracking ");
        out.append(u64_string(self.trackers.len() as u64).as_str());
        out.append(" items <<<\n");
        let mut k: usize = 0;
        while k < self.trackers.len()
            invariant
                k <= self.trackers@.len(),
                alive@.len() == self.trackers@.len(),
                out@ == ">>> Tracking "@ + crate::util::dec_str(self.trackers@.len() as int)
                    + " items <<<\n"@ + list_lines(
                    self.trackers@.subrange(0, k as int),
                    alive@.subrange(0, k as int),
                ),
            decreases self.trackers@.len() - k,
        {
            if alive[k] {
                out.append("`[alive]`\t");
            } else {
                out.append("`[dead ]`\t");
            }
            out.append(self.trackers[k].key.as_str());
            out.append("\n");
            proof {
                reveal_strlit("`[alive]`\t");
                reveal_strlit("`[dead ]`\t");
                reveal_strlit("\n");
                let ep = self.trackers@.subrange(0, k + 1);
                let fp = alive@.subrange(0, k + 1);
                assert(ep.drop_last() =~= self.trackers@.subrange(0, k as int));
                assert(fp.drop_last() =~= alive@.subrange(0, k as int));
                assert(ep.last() == self.trackers@[k as int]);
                assert(fp[ep.len() - 1] == alive@[k as int]);
                assert(out@ =~= ">>> Tracking "@ + crate::util::dec_str(
                    self.trackers@.len() as int,
                ) + " items <<<\n"@ + list_lines(ep, fp));
            }
            k += 1;
        }
        proof {
            reveal_strlit(">>> Tracking ");
            reveal_strlit(" items <<<\n");
            assert(self.trackers@.subrange(0, self.trackers@.len() as int) =~= self.trackers@);
            assert(alive@.subrange(0, alive@.len() as int) =~= alive@);
        }
        out
    }

    /// Probe every worker and render the listing with what answered.
    pub fn list(&self) -> (r: String)
        ensures
            exists|flags: Seq<bool>|
                flags.len() == self.trackers@.len() && r@ == #[trigger] list_text_spec(
                    self.trackers@,
                    flags,
                ),
    {
        let flags = self.probe();
        let r = self.list_with(&flags);
        proof {
            assert(flags@.len() == self.trackers@.len() && r@ == list_text_spec(
                self.trackers@,
                flags@,
            ));
        }
        r
    }

    /// Ask every worker that still answers to send a snapshot to `reply`;
    /// the count of accepted requests comes back, bounding how many answers
    /// the caller should wait for.
    pub fn request_snapshots(&self, reply: &Sender<TrackerState>) -> (n: usize)
        ensures
            n <= self.trackers@.len(),
    {
        let mut n: usize = 0;
        let mut k: usize = 0;
        while k < self.trackers.len()
            invariant
                k <= self.trackers@.len(),
                n <= k,
            decreases self.trackers@.len() - k,
        {
            if send_signal(&self.trackers[k].link, WorkerSignal::Save(clone_link(reply))) {
                n += 1;
            }
            k += 1;
        }
        n
    }

    /// Route a tracking command.
    ///
    /// `/track <id>` asks the caller to start a worker (handed back as the
    /// second result; the registry itself changes only once the worker
    /// exists and is passed to [`Tracker::track`]). `/untrack <id>` stops
    /// one, `/list` renders the registry, `/query <id>` requests a report,
    /// `/cleanup` drops dead workers. Anything else is left untouched.
    pub fn process(&mut self, msg: &IncomingMessage) -> (r: (Vec<Outbound>, Option<String>))
        requires
            old(self).wf(),
        ensures
            final(self).wf(),
            tracker_process_rel(*old(self), *final(self), *msg, r.0@, r.1),
    {
        proof {
            reveal_strlit("track");
            reveal_strlit("untrack");
            reveal_strlit("list");
            reveal_strlit("query");
            reveal_strlit("cleanup");
            assert("track"@.len() == 5);
            assert("untrack"@.len() == 7);
            assert("list"@.len() == 4);
            assert("query"@.len() == 5);
            assert("cleanup"@.len() == 7);
            assert("track"@[0] == 't');
            assert("query"@[0] == 'q');
            assert("untrack"@[0] == 'u');
            assert("cleanup"@[0] == 'c');
        }
        let mut out: Vec<Outbound> = Vec::new();
        let name = match msg.cmd_name() {
            Some(n) => n,
            None => {
                return (out, None);
            },
        };
        let name_s = name.as_str();
        if crate::message::str_eq(name_s, "track") {
            match msg.cmd_arg() {
                Some(no) => {
                    return (out, Some(no));
                },
                None => {
                    out.push(
                        crate::types::reply(
                            msg.chat_id,
                            msg.message_id,
                            String::from_str("Usage: /track <tracking_no>"),
                        ),
                    );
                    return (out, None);
                },
            }
        }
        if crate::message::str_eq(name_s, "untrack") {
            match msg.cmd_arg() {
                Some(no) => {
                    self.untrack(no.as_str());
                    let mut text = String::from_str("Tracker ");
                    text.append(no.as_str());
                    text.append(" killed");
                    out.push(crate::types::reply(msg.chat_id, msg.message_id, text));
                },
                None => {
                    out.push(
                        crate::types::reply(
                            msg.chat_id,
                            msg.message_id,
                            String::from_str("Usage: /untrack <tracking_no>"),
                        ),
                    );
                },
            }
            return (out, None);
        }
        if crate::message::str_eq(name_s, "list") {
            out.push(crate::types::reply_md(msg.chat_id, msg.message_id, self.list()));
            return (out, None);
        }
        if crate::message::str_eq(name_s, "query") {
            match msg.cmd_arg() {
                Some(no) => {
                    self.query(no.as_str());
                },
                None => {
                    out.push(
                        crate::types::reply(
                            msg.chat_id,
                            msg.message_id,
                            String::from_str("Usage: /query <tracking_no>"),
                        ),
                    );
                },
            }
            return (out, None);
        }
        if crate::message::str_eq(name_s, "cleanup") {
            let mut text = self.list();
            let removed = self.cleanup();
            text.append("---\n");
            text.append(u64_string(removed as u64).as_str());
            text.append(" entries removed.");
            out.push(crate::types::reply_md(msg.chat_id, msg.message_id, text));
            return (out, None);
        }
        (out, None)
    }
}

proof fn lemma_lines_of_same(a: Seq<ProgressItem>, b: Seq<ProgressItem>)
    requires
        a.len() == b.len(),
        forall|i: int| 0 <= i < a.len() ==> item_line(#[trigger] a[i]) == item_line(b[i]),
    ensures
        lines_of(a) == lines_of(b),
    decreases a.len(),
{
    if a.len() > 0 {
        assert forall|i: int| 0 <= i < a.drop_last().len()
            implies item_line(#[trigger] a.drop_last()[i]) == item_line(b.drop_last()[i]) by {
            assert(a.drop_last()[i] == a[i]);
            assert(b.drop_last()[i] == b[i]);
        }
        lemma_lines_of_same(a.drop_last(), b.drop_last());
        assert(item_line(a.last()) == item_line(b.last()));
    }
}

} // verus!
