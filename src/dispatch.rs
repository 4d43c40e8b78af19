//! The dispatcher: the single owner of the live subscriber set.
//!
//! Subscribers are known by identifiers that the dispatcher hands out in
//! increasing order, so the set lists them in the order they joined. The
//! program around the dispatcher holds the connections, performs the writes
//! that a broadcast asks for and reports back the subscribers whose write
//! failed.

use vstd::prelude::*;
use crate::frame::GratuitousArpEvent;
use crate::wire::{encode_event, wire_line};

verus! {

/// What the dispatcher knows: the live subscribers in order of joining, and
/// the identifier the next one will get.
pub struct DispatcherView {
    pub subscribers: Seq<u64>,
    pub next_id: u64,
}

impl DispatcherView {
    /// Identifiers increase along the set and all lie below `next_id`.
    pub open spec fn wf(self) -> bool {
        &&& forall|i: int, j: int|
            0 <= i < j < self.subscribers.len() ==> self.subscribers[i] < self.subscribers[j]
        &&& forall|i: int| 0 <= i < self.subscribers.len() ==> self.subscribers[i] < self.next_id
    }

    /// Whether another subscriber can still be given a fresh identifier.
    pub open spec fn can_accept(self) -> bool {
        self.next_id < u64::MAX
    }

    /// The state after a new connection: it joins at the end of the set.
    pub open spec fn after_connect(self) -> DispatcherView {
        if self.can_accept() {
            DispatcherView {
                subscribers: self.subscribers.push(self.next_id),
                next_id: (self.next_id + 1) as u64,
            }
        } else {
            self
        }
    }

    /// The state after a broadcast in which the writes to `failed` did not go
    /// through: those subscribers leave, the others keep their order.
    pub open spec fn after_failures(self, failed: Seq<u64>) -> DispatcherView {
        DispatcherView {
            subscribers: self.subscribers.filter(survives(failed)),
            next_id: self.next_id,
        }
    }

    /// `id` was handed out once and is no longer in the set.
    pub open spec fn retired(self, id: u64) -> bool {
        id < self.next_id && !self.subscribers.contains(id)
    }
}

/// Whether a subscriber stays after a broadcast in which the writes to
/// `failed` did not go through.
pub open spec fn survives(failed: Seq<u64>) -> spec_fn(u64) -> bool {
    |id: u64| !failed.contains(id)
}

/// A change to the subscriber set, as the dispatcher's operations make it.
pub enum Change {
    /// A connection joined.
    Connect,
    /// A broadcast ran and the writes to these subscribers failed.
    Failures(Seq<u64>),
}

impl DispatcherView {
    /// The state after one change.
    pub open spec fn apply(self, c: Change) -> DispatcherView {
        match c {
            Change::Connect => self.after_connect(),
            Change::Failures(failed) => self.after_failures(failed),
        }
    }

    /// The state after a run of changes, in order.
    pub open spec fn run(self, changes: Seq<Change>) -> DispatcherView
        decreases changes.len(),
    {
        if changes.len() == 0 {
            self
        } else {
            self.run(changes.drop_last()).apply(changes.last())
        }
    }
}

/// How many times `id` occurs in `s`.
pub open spec fn copies(s: Seq<u64>, id: u64) -> nat
    decreases s.len(),
{
    if s.len() == 0 {
        0
    } else {
        copies(s.drop_last(), id) + if s.last() == id {
            1nat
        } else {
            0nat
        }
    }
}

/// What the program around the dispatcher must do for one announcement:
/// write `line` to each subscriber of `targets`, in that order.
#[derive(Clone, Debug, PartialEq, Eq)]
pub struct Broadcast {
    pub line: Vec<u8>,
    pub targets: Vec<u64>,
}

/// The live subscriber set and the identifiers handed out so far.
#[derive(Debug)]
pub struct Dispatcher {
    subscribers: Vec<u64>,
    next_id: u64,
}

impl View for Dispatcher {
    type V = DispatcherView;

    closed spec fn view(&self) -> DispatcherView {
        DispatcherView { subscribers: self.subscribers@, next_id: self.next_id }
    }
}

impl Dispatcher {
    /// A dispatcher with no subscribers.
    pub fn new() -> (r: Dispatcher)
        ensures
            r@.wf(),
            r@.subscribers == Seq::<u64>::empty(),
            r@.can_accept(),
    {
        Dispatcher { subscribers: Vec::new(), next_id: 0 }
    }

    /// Takes in a new connection and returns the identifier it is known by
    /// from now on, or `None` once every identifier has been handed out.
    pub fn connect(&mut self) -> (r: Option<u64>)
        requires
            old(self)@.wf(),
        ensures
            final(self)@.wf(),
            final(self)@ == old(self)@.after_connect(),
            r == (if old(self)@.can_accept() {
                Some(old(self)@.next_id)
            } else {
                None::<u64>
            }),
            r matches Some(id) ==> !old(self)@.subscribers.contains(id),
            forall|k: u64| old(self)@.retired(k) ==> final(self)@.retired(k),
    {
        if self.next_id == u64::MAX {
            return None;
        }
        let id = self.next_id;
        proof {
            lemma_connect_wf(old(self)@);
        }
        self.subscribers.push(id);
        self.next_id = id + 1;
        Some(id)
    }

    /// The live subscribers, in order of joining.
    pub fn subscribers(&self) -> (r: Vec<u64>)
        ensures
            r@ == self@.subscribers,
    {
        self.subscribers.clone()
    }

    /// The writes that announce `e`: its record, to every live subscriber in
    /// order of joining.
    pub fn broadcast(&self, e: &GratuitousArpEvent) -> (r: Broadcast)
        ensures
            r.line@ == wire_line(*e),
            r.targets@ == self@.subscribers,
    {
        Broadcast { line: encode_event(e), targets: self.subscribers.clone() }
    }

    /// Removes the subscribers whose write failed; the others keep their
    /// order.
    pub fn drop_failed(&mut self, failed: &Vec<u64>)
        requires
            old(self)@.wf(),
        ensures
            final(self)@.wf(),
            final(self)@ == old(self)@.after_failures(failed@),
            forall|k: u64|
                old(self)@.subscribers.contains(k) && failed@.contains(k)
                    ==> final(self)@.retired(k),
            forall|k: u64| old(self)@.retired(k) ==> final(self)@.retired(k),
    {
        let ghost old_subs = self.subscribers@;
        assert(old_subs == old(self)@.subscribers);
        let mut kept: Vec<u64> = Vec::new();
        let mut i: usize = 0;
        while i < self.subscribers.len()
            invariant
                i <= old_subs.len(),
                self.subscribers@ == old_subs,
                kept@ == old_subs.subrange(0, i as int).filter(survives(failed@)),
            decreases old_subs.len() - i,
        {
            let id = self.subscribers[i];
            let gone = vec_contains(failed, id);
            if !gone {
                kept.push(id);
            }
            proof {
                let s = old_subs.subrange(0, i as int + 1);
                assert(s.drop_last() =~= old_subs.subrange(0, i as int));
                assert(s.last() == id);
                assert(survives(failed@)(id) == !gone);
                reveal(Seq::filter);
                assert(kept@ =~= s.filter(survives(failed@)));
            }
            i += 1;
        }
        assert(old_subs.subrange(0, i as int) =~= old_subs);
        self.subscribers = kept;
        proof {
            broadcast use vstd::seq_lib::group_filter_ensures, Seq::lemma_filter_contains_rev;

            lemma_filter_keeps_order(old_subs, survives(failed@));
            assert forall|i: int| 0 <= i < self@.subscribers.len() implies self@.subscribers[i]
                < self.next_id by {
                assert(self@.subscribers.contains(self@.subscribers[i]));
            }
            assert forall|k: u64| old_subs.contains(k) && failed@.contains(k) implies !self@.subscribers.contains(k) by {
                if self@.subscribers.contains(k) {
                    let j = choose|j: int| 0 <= j < self@.subscribers.len() && self@.subscribers[j] == k;
                    assert(survives(failed@)(self@.subscribers[j]));
                }
            }
        }
    }
}

/// A broadcast reaches every live subscriber exactly once: the targets of
/// [`Dispatcher::broadcast`] are the subscriber set, in which each
/// subscriber occurs once.
pub proof fn lemma_fan_out(v: DispatcherView)
    requires
        v.wf(),
    ensures
        forall|id: u64| #[trigger] v.subscribers.contains(id) ==> copies(v.subscribers, id) == 1,
{
    assert forall|id: u64| #[trigger] v.subscribers.contains(id) implies copies(v.subscribers, id)
        == 1 by {
        lemma_increasing_copies(v.subscribers, id);
    }
}

/// A failed write is isolated: after a broadcast in which the writes to
/// `failed` did not go through, every other subscriber is still in the set,
/// and a failed subscriber `k` is in none of the sets that any later run of
/// connections and failures leads to, so no later broadcast targets it.
pub proof fn lemma_failure_isolation(
    v: DispatcherView,
    failed: Seq<u64>,
    k: u64,
    later: Seq<Change>,
)
    requires
        v.wf(),
        v.subscribers.contains(k),
        failed.contains(k),
    ensures
        forall|id: u64|
            v.subscribers.contains(id) && !failed.contains(id) ==> #[trigger] v.after_failures(
                failed,
            ).subscribers.contains(id),
        !v.after_failures(failed).run(later).subscribers.contains(k),
{
    broadcast use vstd::seq_lib::group_filter_ensures, Seq::lemma_filter_contains_rev;

    assert forall|id: u64|
        v.subscribers.contains(id) && !failed.contains(id) implies #[trigger] v.after_failures(
        failed,
    ).subscribers.contains(id) by {
        let i = choose|i: int| 0 <= i < v.subscribers.len() && v.subscribers[i] == id;
        assert(survives(failed)(v.subscribers[i]));
    }
    let i = choose|i: int| 0 <= i < v.subscribers.len() && v.subscribers[i] == k;
    assert(v.subscribers[i] < v.next_id);
    lemma_retired_stays_retired(v.after_failures(failed), k, later);
}

/// A late joiner receives what comes after it joined and nothing before: the
/// identifier that a connection gets was not among the targets of any
/// earlier broadcast, and it stays in the set through any later run of
/// changes in which no write to it fails.
pub proof fn lemma_late_joiner(v: DispatcherView, later: Seq<Change>)
    requires
        v.wf(),
        v.can_accept(),
        forall|i: int|
            0 <= i < later.len() ==> (#[trigger] later[i] matches Change::Failures(f)
                ==> !f.contains(v.next_id)),
    ensures
        !v.subscribers.contains(v.next_id),
        v.after_connect().subscribers.contains(v.next_id),
        v.after_connect().run(later).subscribers.contains(v.next_id),
{
    let id = v.next_id;
    if v.subscribers.contains(id) {
        let i = choose|i: int| 0 <= i < v.subscribers.len() && v.subscribers[i] == id;
        assert(v.subscribers[i] < v.next_id);
    }
    let w = v.after_connect();
    assert(w.subscribers[w.subscribers.len() - 1] == id);
    lemma_member_stays(w, id, later);
}

/// A retired identifier is never handed out again nor brought back.
proof fn lemma_retired_stays_retired(v: DispatcherView, k: u64, changes: Seq<Change>)
    requires
        v.retired(k),
    ensures
        v.run(changes).retired(k),
    decreases changes.len(),
{
    broadcast use Seq::lemma_filter_contains_rev;

    if changes.len() > 0 {
        lemma_retired_stays_retired(v, k, changes.drop_last());
        let u = v.run(changes.drop_last());
        if changes.last() is Connect && u.can_accept() {
            assert(u.after_connect().subscribers =~= u.subscribers.push(u.next_id));
            if u.after_connect().subscribers.contains(k) {
                let i = choose|i: int|
                    0 <= i < u.after_connect().subscribers.len()
                        && u.after_connect().subscribers[i] == k;
                if i < u.subscribers.len() {
                    assert(u.subscribers[i] == k);
                }
            }
        }
    }
}

/// A subscriber stays in the set through a run of changes in which no write
/// to it fails.
proof fn lemma_member_stays(v: DispatcherView, id: u64, changes: Seq<Change>)
    requires
        v.subscribers.contains(id),
        forall|i: int|
            0 <= i < changes.len() ==> (#[trigger] changes[i] matches Change::Failures(f)
                ==> !f.contains(id)),
    ensures
        v.run(changes).subscribers.contains(id),
    decreases changes.len(),
{
    broadcast use vstd::seq_lib::group_filter_ensures;

    if changes.len() > 0 {
        let init = changes.drop_last();
        assert forall|i: int| 0 <= i < init.len() implies (#[trigger] init[i] matches Change::Failures(f)
            ==> !f.contains(id)) by {
            assert(init[i] == changes[i]);
        }
        lemma_member_stays(v, id, init);
        let u = v.run(init);
        let j = choose|j: int| 0 <= j < u.subscribers.len() && u.subscribers[j] == id;
        match changes.last() {
            Change::Connect => {
                if u.can_accept() {
                    assert(u.after_connect().subscribers[j] == id);
                }
            },
            Change::Failures(f) => {
                assert(changes[changes.len() - 1] == changes.last());
                assert(survives(f)(u.subscribers[j]));
            },
        }
    }
}

/// In an increasing sequence each element occurs once.
proof fn lemma_increasing_copies(s: Seq<u64>, id: u64)
    requires
        forall|i: int, j: int| 0 <= i < j < s.len() ==> s[i] < s[j],
    ensures
        s.contains(id) ==> copies(s, id) == 1,
        !s.contains(id) ==> copies(s, id) == 0,
    decreases s.len(),
{
    if s.len() > 0 {
        let t = s.drop_last();
        lemma_increasing_copies(t, id);
        if t.contains(id) {
            let i = choose|i: int| 0 <= i < t.len() && t[i] == id;
            assert(s[i] < s[s.len() - 1]);
        }
        if s.contains(id) && !t.contains(id) {
            let i = choose|i: int| 0 <= i < s.len() && s[i] == id;
            if i < t.len() {
                assert(t[i] == id);
            }
        }
        if t.contains(id) {
            let i = choose|i: int| 0 <= i < t.len() && t[i] == id;
            assert(s[i] == id);
        }
    }
}

fn vec_contains(v: &Vec<u64>, x: u64) -> (r: bool)
    ensures
        r == v@.contains(x),
{
    let mut i: usize = 0;
    while i < v.len()
        invariant
            i <= v@.len(),
            forall|j: int| 0 <= j < i ==> v@[j] != x,
        decreases v@.len() - i,
    {
        if v[i] == x {
            return true;
        }
        i += 1;
    }
    false
}

/// A connection keeps the set well formed.
proof fn lemma_connect_wf(v: DispatcherView)
    requires
        v.wf(),
    ensures
        v.after_connect().wf(),
{
    let w = v.after_connect();
    if v.can_accept() {
        assert forall|i: int, j: int|
            0 <= i < j < w.subscribers.len() implies w.subscribers[i] < w.subscribers[j] by {
            assert(w.subscribers[i] == v.subscribers[i]);
            if j < v.subscribers.len() {
                assert(w.subscribers[j] == v.subscribers[j]);
            }
        }
    }
}

/// Filtering a sequence whose elements increase keeps them increasing.
proof fn lemma_filter_keeps_order(s: Seq<u64>, keep: spec_fn(u64) -> bool)
    requires
        forall|i: int, j: int| 0 <= i < j < s.len() ==> s[i] < s[j],
    ensures
        forall|i: int, j: int|
            0 <= i < j < s.filter(keep).len() ==> s.filter(keep)[i] < s.filter(keep)[j],
    decreases s.len(),
{
    broadcast use Seq::lemma_filter_contains_rev;

    reveal(Seq::filter);
    if s.len() > 0 {
        let t = s.drop_last();
        lemma_filter_keeps_order(t, keep);
        let ft = t.filter(keep);
        assert forall|i: int| 0 <= i < ft.len() implies ft[i] < s.last() by {
            assert(ft.contains(ft[i]));
            assert(t.contains(ft[i]));
            let k = choose|k: int| 0 <= k < t.len() && t[k] == ft[i];
            assert(t[k] == s[k]);
        }
    }
}

} // verus!
