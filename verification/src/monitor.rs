//! The per-hub reply monitor as a state machine.
//!
//! The caller owns the IMAP session and the repository. It performs the
//! [`MonitorAction`] that a transition hands out and reports the outcome as
//! the next [`MonitorEvent`]. The machine decides the order in which UIDs are
//! processed and when the watermark is written.

use vstd::prelude::*;
use crate::decimal::{decimal, u64_to_chars};
use crate::text::{append_chars, from_chars, to_chars};

verus! {

/// The UIDs stand in ascending order.
pub open spec fn ascending(s: Seq<u32>) -> bool {
    forall|i: int, j: int| 0 <= i <= j < s.len() ==> s[i] <= s[j]
}

/// How often `uid` stands in `s`.
pub open spec fn occurrences(s: Seq<u32>, uid: u32) -> nat {
    s.to_multiset().count(uid)
}

/// `s` without the elements equal to `uid`.
pub open spec fn without_uid(s: Seq<u32>, uid: u32) -> Seq<u32>
    decreases s.len(),
{
    if s.len() == 0 {
        s
    } else if s.last() == uid {
        without_uid(s.drop_last(), uid)
    } else {
        without_uid(s.drop_last(), uid).push(s.last())
    }
}

/// `r` is the ascending arrangement of the UIDs of `found` other than
/// `cutoff`, each as often as `found` holds it.
pub open spec fn is_pending(r: Seq<u32>, found: Seq<u32>, cutoff: u32) -> bool {
    &&& ascending(r)
    &&& forall|uid: u32|
        #[trigger] occurrences(r, uid) == if uid == cutoff {
            0
        } else {
            occurrences(found, uid)
        }
}

/// The first UID that a search after `last_uid` asks for.
pub open spec fn first_unseen(last_uid: u32) -> u32 {
    if last_uid == u32::MAX {
        u32::MAX
    } else {
        (last_uid + 1) as u32
    }
}

/// The IMAP search key for every message from `first` on.
pub open spec fn search_query_spec(first: u32) -> Seq<char> {
    "UID "@ + decimal(first as nat) + ":*"@
}

/// The watermark to write after `candidate` was processed, if any: the
/// candidate, when it fits in 32 signed bits and lies above what is stored.
pub open spec fn watermark_after(stored: i32, candidate: u32) -> Option<i32> {
    if candidate <= i32::MAX && candidate > stored {
        Some(candidate as i32)
    } else {
        None
    }
}

/// The stored watermark once `written` was written: the higher of the two.
pub open spec fn later_watermark(stored: i32, written: i32) -> i32 {
    if written > stored {
        written
    } else {
        stored
    }
}

/// The UID at which a hub resumes: its stored watermark, or zero below that.
pub open spec fn resume_uid(imap_last_uid: i32) -> u32 {
    if imap_last_uid < 0 {
        0
    } else {
        imap_last_uid as u32
    }
}

/// Removing a UID keeps the order of the others, and their number.
pub proof fn lemma_without_uid(s: Seq<u32>, uid: u32)
    ensures
        ascending(s) ==> ascending(without_uid(s, uid)),
        forall|i: int|
            0 <= i < without_uid(s, uid).len() ==> s.contains(#[trigger] without_uid(s, uid)[i]),
        forall|other: u32|
            #[trigger] occurrences(without_uid(s, uid), other) == if other == uid {
                0
            } else {
                occurrences(s, other)
            },
    decreases s.len(),
{
    let r = without_uid(s, uid);
    if s.len() == 0 {
        s.to_multiset_ensures();
        assert forall|other: u32| #[trigger] occurrences(r, other) == 0 by {
            assert(!s.contains(other));
        }
    } else {
        let init = s.drop_last();
        let last = s.last();
        lemma_without_uid(init, uid);
        let rest = without_uid(init, uid);
        assert(s == init.push(last));
        init.to_multiset_ensures();
        rest.to_multiset_ensures();
        assert forall|i: int| 0 <= i < r.len() implies s.contains(#[trigger] r[i]) by {
            if i < rest.len() {
                assert(init.contains(rest[i]));
                let k = choose|k: int| 0 <= k < init.len() && init[k] == rest[i];
                assert(s[k] == rest[i]);
            } else {
                assert(s[s.len() - 1] == r[i]);
            }
        }
        if ascending(s) {
            assert(ascending(init)) by {
                assert forall|i: int, j: int| 0 <= i <= j < init.len() implies init[i]
                    <= init[j] by {
                    assert(s[i] <= s[j]);
                }
            }
            if last != uid {
                assert forall|i: int, j: int| 0 <= i <= j < r.len() implies r[i] <= r[j] by {
                    if j == rest.len() && i < rest.len() {
                        assert(init.contains(rest[i]));
                        let k = choose|k: int| 0 <= k < init.len() && init[k] == rest[i];
                        assert(s[k] <= s[s.len() - 1]);
                    }
                }
            }
        }
        assert forall|other: u32|
            #[trigger] occurrences(r, other) == if other == uid {
                0
            } else {
                occurrences(s, other)
            } by {
            assert(occurrences(rest, other) == if other == uid {
                0
            } else {
                occurrences(init, other)
            });
        }
    }
}

/// `slice::sort_unstable` leaves the same UIDs, in ascending order.
#[verifier::external_body]
fn sort_uids(uids: &mut Vec<u32>)
    ensures
        ascending(final(uids)@),
        final(uids)@.to_multiset() == old(uids)@.to_multiset(),
{
    uids.sort_unstable();
}

/// The UIDs in ascending order.
pub fn ordered_uids(uids: Vec<u32>) -> (ordered: Vec<u32>)
    ensures
        ascending(ordered@),
        ordered@.to_multiset() == uids@.to_multiset(),
{
    let mut ordered = uids;
    sort_uids(&mut ordered);
    ordered
}

/// The UIDs that a search returned and that are still to be processed, in
/// the order of processing: ascending, and without `cutoff`, the UID that
/// was processed last and that the server reports again when nothing is new.
pub fn pending_uids(found: Vec<u32>, cutoff: u32) -> (pending: Vec<u32>)
    ensures
        is_pending(pending@, found@, cutoff),
{
    let ordered = ordered_uids(found);
    let mut pending: Vec<u32> = Vec::new();
    let mut i: usize = 0;
    while i < ordered.len()
        invariant
            i <= ordered.len(),
            pending@ == without_uid(ordered@.take(i as int), cutoff),
        decreases ordered.len() - i,
    {
        assert(ordered@.take(i + 1).drop_last() == ordered@.take(i as int));
        if ordered[i] != cutoff {
            pending.push(ordered[i]);
        }
        i += 1;
    }
    proof {
        assert(ordered@.take(ordered.len() as int) == ordered@);
        lemma_without_uid(ordered@, cutoff);
    }
    pending
}

/// The search key that asks for every message from `first` on.
pub fn search_query(first: u32) -> (query: String)
    ensures
        query@ == search_query_spec(first),
{
    let mut out = to_chars("UID ");
    let digits = u64_to_chars(first as u64);
    append_chars(&mut out, &digits);
    let tail = to_chars(":*");
    append_chars(&mut out, &tail);
    from_chars(&out)
}

/// What the monitor waits for.
#[derive(Clone, Copy, Debug, PartialEq, Eq, Structural)]
pub enum Stage {
    /// The session is open and nothing was asked yet.
    Connected,
    /// A search for new UIDs is under way.
    Searching,
    /// The message with this UID is being processed.
    Processing(u32),
    /// This watermark is being written.
    Persisting(i32),
    /// The session waits in `IDLE`.
    Idling,
    /// The monitor has ended; the supervisor decides what follows.
    Stopped,
}

/// What the caller reports.
#[derive(Debug)]
pub enum MonitorEvent {
    /// The session was opened and `INBOX` selected.
    SessionReady,
    /// The search returned these UIDs, in any order.
    SearchCompleted(Vec<u32>),
    /// The search failed.
    SearchFailed,
    /// The message was fetched, parsed and classified, and what its
    /// classification asked for was carried out or given up with a warning.
    MessageProcessed,
    /// The server has no message with this UID any more.
    MessageVanished,
    /// The message could not be parsed; reading it again would not help.
    MessageUnreadable,
    /// The watermark was written.
    WatermarkStored,
    /// The watermark could not be written.
    WatermarkFailed,
    /// The server announced a change while the session idled.
    IdleNotified,
    /// The keep-alive timer ended the wait.
    IdleTimedOut,
    /// `IDLE` could not be started, waited for or ended.
    IdleFailed,
}

/// What the caller does next.
#[derive(Clone, Copy, Debug, PartialEq, Eq, Structural)]
pub enum MonitorAction {
    /// Search for the UIDs from `first` on; see [`search_query`].
    Search { first: u32 },
    /// Process the message with this UID.
    Process { uid: u32 },
    /// Store `watermark` as the hub's highest processed UID.
    Persist { hub_id: i32, watermark: i32 },
    /// Enter `IDLE`, bounded by the keep-alive interval.
    Idle,
    /// Leave the monitor and report the failure at hand to the supervisor.
    Stop,
}

/// Seconds after which a waiting `IDLE` is ended and issued anew.
pub const IDLE_KEEPALIVE_SECS: u64 = 1740;

/// The state of one hub's monitor.
#[derive(Debug)]
pub struct Monitor {
    pub hub_id: i32,
    /// The UID processed last, or the watermark found at the start.
    pub last_uid: u32,
    /// The watermark known to be stored.
    pub persisted_uid: i32,
    pub stage: Stage,
    /// The UIDs found by the last search and not yet handed out.
    pub queue: Vec<u32>,
}

/// The state of a monitor in mathematical terms.
pub struct MonitorState {
    pub hub_id: i32,
    pub last_uid: u32,
    pub persisted_uid: i32,
    pub stage: Stage,
    pub queue: Seq<u32>,
}

/// The state that hands out the head of the queue, or idles when it is empty.
pub open spec fn advance(s: MonitorState) -> (MonitorState, MonitorAction) {
    if s.queue.len() > 0 {
        (
            MonitorState { stage: Stage::Processing(s.queue[0]), queue: s.queue.drop_first(), ..s },
            MonitorAction::Process { uid: s.queue[0] },
        )
    } else {
        (MonitorState { stage: Stage::Idling, ..s }, MonitorAction::Idle)
    }
}

/// The state in which a search was asked for.
pub open spec fn search(s: MonitorState) -> (MonitorState, MonitorAction) {
    (
        MonitorState { stage: Stage::Searching, ..s },
        MonitorAction::Search { first: first_unseen(s.last_uid) },
    )
}

/// The state in which the monitor has ended.
pub open spec fn stop(s: MonitorState) -> (MonitorState, MonitorAction) {
    (MonitorState { stage: Stage::Stopped, queue: Seq::empty(), ..s }, MonitorAction::Stop)
}

/// A transition that takes up a search result: `pending` is the queue that
/// the result leaves.
pub open spec fn take_up(s: MonitorState, pending: Seq<u32>) -> (MonitorState, MonitorAction) {
    advance(MonitorState { queue: pending, ..s })
}

/// The state after the message `uid` is done with: the watermark is written
/// where it rises, and else the next UID is handed out.
pub open spec fn done_with(s: MonitorState, uid: u32) -> (MonitorState, MonitorAction) {
    let seen = MonitorState { last_uid: uid, ..s };
    match watermark_after(s.persisted_uid, uid) {
        Some(mark) => (
            MonitorState { stage: Stage::Persisting(mark), ..seen },
            MonitorAction::Persist { hub_id: s.hub_id, watermark: mark },
        ),
        None => advance(seen),
    }
}

/// The transition relation: in state `s`, on `event`, the monitor goes to
/// state `next.0` and asks for `next.1`.
///
/// A message that has vanished or cannot be parsed is done with like one
/// that was processed: reading it again would not help. A failed search,
/// a failed write of the watermark and a failed `IDLE` end the monitor, and
/// so does an event that the stage does not wait for.
pub open spec fn transition(
    s: MonitorState,
    event: MonitorEvent,
    next: (MonitorState, MonitorAction),
) -> bool {
    match (s.stage, event) {
        (Stage::Connected, MonitorEvent::SessionReady) => next == search(s),
        (Stage::Searching, MonitorEvent::SearchCompleted(found)) => exists|pending: Seq<u32>|
            #[trigger] is_pending(pending, found@, s.last_uid) && next == take_up(s, pending),
        (Stage::Processing(uid), MonitorEvent::MessageProcessed) => next == done_with(s, uid),
        (Stage::Processing(uid), MonitorEvent::MessageVanished) => next == done_with(s, uid),
        (Stage::Processing(uid), MonitorEvent::MessageUnreadable) => next == done_with(s, uid),
        (Stage::Persisting(mark), MonitorEvent::WatermarkStored) => next == advance(
            MonitorState { persisted_uid: later_watermark(s.persisted_uid, mark), ..s },
        ),
        (Stage::Idling, MonitorEvent::IdleNotified) => next == search(s),
        (Stage::Idling, MonitorEvent::IdleTimedOut) => next == search(s),
        _ => next == stop(s),
    }
}

/// The UID that the monitor has in hand: the one being processed, or the
/// one whose watermark is being written.
pub open spec fn in_hand(stage: Stage) -> Option<int> {
    match stage {
        Stage::Processing(uid) => Some(uid as int),
        Stage::Persisting(mark) => Some(mark as int),
        _ => None,
    }
}

/// What holds of every state that a monitor reaches: the queue is in
/// ascending order and holds nothing below the UID in hand, and a
/// watermark under way lies above the stored one.
pub open spec fn well_formed(s: MonitorState) -> bool {
    &&& ascending(s.queue)
    &&& s.stage matches Stage::Persisting(mark) ==> mark > s.persisted_uid
    &&& in_hand(s.stage) matches Some(uid) ==> forall|i: int|
        0 <= i < s.queue.len() ==> uid <= #[trigger] s.queue[i]
}

impl View for Monitor {
    type V = MonitorState;

    open spec fn view(&self) -> MonitorState {
        MonitorState {
            hub_id: self.hub_id,
            last_uid: self.last_uid,
            persisted_uid: self.persisted_uid,
            stage: self.stage,
            queue: self.queue@,
        }
    }
}

impl Monitor {
    /// The monitor of hub `hub_id`, whose stored watermark is `imap_last_uid`.
    pub fn new(hub_id: i32, imap_last_uid: i32) -> (monitor: Monitor)
        ensures
            monitor@ == (MonitorState {
                hub_id,
                last_uid: resume_uid(imap_last_uid),
                persisted_uid: imap_last_uid,
                stage: Stage::Connected,
                queue: Seq::empty(),
            }),
            well_formed(monitor@),
    {
        let last_uid: u32 = if imap_last_uid < 0 {
            0
        } else {
            imap_last_uid as u32
        };
        Monitor {
            hub_id,
            last_uid,
            persisted_uid: imap_last_uid,
            stage: Stage::Connected,
            queue: Vec::new(),
        }
    }

    fn advance(&mut self) -> (action: MonitorAction)
        ensures
            (final(self)@, action) == advance(old(self)@),
    {
        if self.queue.len() > 0 {
            let uid = self.queue.remove(0);
            assert(self.queue@ == old(self).queue@.drop_first());
            self.stage = Stage::Processing(uid);
            MonitorAction::Process { uid }
        } else {
            self.stage = Stage::Idling;
            MonitorAction::Idle
        }
    }

    fn search(&mut self) -> (action: MonitorAction)
        ensures
            (final(self)@, action) == search(old(self)@),
    {
        self.stage = Stage::Searching;
        let first: u32 = if self.last_uid == u32::MAX {
            u32::MAX
        } else {
            self.last_uid + 1
        };
        MonitorAction::Search { first }
    }

    fn stop(&mut self) -> (action: MonitorAction)
        ensures
            (final(self)@, action) == stop(old(self)@),
    {
        self.stage = Stage::Stopped;
        self.queue = Vec::new();
        MonitorAction::Stop
    }

    fn done_with(&mut self, uid: u32) -> (action: MonitorAction)
        ensures
            (final(self)@, action) == done_with(old(self)@, uid),
    {
        self.last_uid = uid;
        if uid <= 0x7fff_ffff && (uid as i64) > (self.persisted_uid as i64) {
            let mark = uid as i32;
            self.stage = Stage::Persisting(mark);
            MonitorAction::Persist { hub_id: self.hub_id, watermark: mark }
        } else {
            self.advance()
        }
    }

    /// Takes `event` and says what to do next.
    ///
    /// The stored watermark never decreases, and a write is asked for only
    /// above it. From a well-formed state the next one is well formed, and
    /// the UIDs of one search are handed out in ascending order.
    pub fn step(&mut self, event: MonitorEvent) -> (action: MonitorAction)
        ensures
            transition(old(self)@, event, (final(self)@, action)),
            well_formed(old(self)@) ==> well_formed(final(self)@),
            well_formed(old(self)@) && in_hand(old(self).stage) is Some ==> (
            action matches MonitorAction::Process { uid } ==> in_hand(old(self).stage)->0 <= uid),
            final(self).persisted_uid >= old(self).persisted_uid,
            final(self).hub_id == old(self).hub_id,
            action matches MonitorAction::Persist { hub_id, watermark } ==> hub_id == old(
                self,
            ).hub_id && watermark > old(self).persisted_uid && watermark == final(self).last_uid,
    {
        match (self.stage, event) {
            (Stage::Connected, MonitorEvent::SessionReady) => self.search(),
            (Stage::Searching, MonitorEvent::SearchCompleted(found)) => {
                let pending = pending_uids(found, self.last_uid);
                self.queue = pending;
                self.advance()
            },
            (Stage::Processing(uid), MonitorEvent::MessageProcessed) => self.done_with(uid),
            (Stage::Processing(uid), MonitorEvent::MessageVanished) => self.done_with(uid),
            (Stage::Processing(uid), MonitorEvent::MessageUnreadable) => self.done_with(uid),
            (Stage::Persisting(mark), MonitorEvent::WatermarkStored) => {
                if mark > self.persisted_uid {
                    self.persisted_uid = mark;
                }
                self.advance()
            },
            (Stage::Idling, MonitorEvent::IdleNotified) => self.search(),
            (Stage::Idling, MonitorEvent::IdleTimedOut) => self.search(),
            _ => self.stop(),
        }
    }
}

} // verus!
