//! The dedup tracker: which rules have already fired for which windows.

use std::collections::HashSet;
use vstd::prelude::*;

verus! {

/// A rule, by its index in the rule set, and a window, by its identifier.
pub type Firing = (nat, u64);

/// Whether `rule` has a record for the window `id`.
pub open spec fn recorded(fired: Set<Firing>, rule: nat, id: u64) -> bool {
    fired.contains((rule, id))
}

/// The records after `rule` fired for the window `id`.
pub open spec fn after_fire(fired: Set<Firing>, rule: nat, id: u64) -> Set<Firing> {
    fired.insert((rule, id))
}

/// The records after the window `id` was forgotten: no rule has one for it,
/// and the records of other windows stay.
pub open spec fn after_forget(fired: Set<Firing>, id: u64) -> Set<Firing> {
    fired.filter(|firing: Firing| firing.1 != id)
}

/// For each rule, by its index, the identifiers of the windows for which
/// the rule's actions were already sent. A rule gets its entry when it
/// first fires.
pub struct DedupTracker {
    fired: Vec<HashSet<u64>>,
}

impl View for DedupTracker {
    type V = Set<Firing>;

    closed spec fn view(&self) -> Set<Firing> {
        Set::new(
            |firing: Firing|
                firing.0 < self.fired@.len() && self.fired@[firing.0 as int]@.contains(firing.1),
        )
    }
}

impl DedupTracker {
    /// A tracker with no record yet.
    pub fn new() -> (tracker: DedupTracker)
        ensures
            tracker@ == Set::<Firing>::empty(),
    {
        let tracker = DedupTracker { fired: Vec::new() };
        assert(tracker@ =~= Set::<Firing>::empty());
        tracker
    }

    /// Whether the rule at `rule_index` has already fired for `window_id`.
    pub fn has_fired(&self, rule_index: usize, window_id: u64) -> (fired: bool)
        ensures
            fired == recorded(self@, rule_index as nat, window_id),
    {
        if rule_index < self.fired.len() {
            self.fired[rule_index].contains(&window_id)
        } else {
            false
        }
    }

    /// Asks whether the rule at `rule_index` is to fire for `window_id`, and
    /// records the firing if so. The answer is yes exactly when there was no
    /// record of the pair.
    pub fn should_fire(&mut self, rule_index: usize, window_id: u64) -> (fire: bool)
        ensures
            fire == !recorded(old(self)@, rule_index as nat, window_id),
            final(self)@ == after_fire(old(self)@, rule_index as nat, window_id),
    {
        while self.fired.len() <= rule_index
            invariant
                self@ == old(self)@,
            decreases rule_index + 1 - self.fired@.len(),
        {
            let ghost before = self@;
            self.fired.push(HashSet::new());
            assert(self@ =~= before);
        }
        let ghost before = self@;
        let fire = self.fired[rule_index].insert(window_id);
        assert(self@ =~= after_fire(before, rule_index as nat, window_id));
        fire
    }

    /// Drops every record of `window_id`, so that each rule can fire again
    /// for a later window with the same identifier. Nothing happens if there
    /// is no record of it.
    pub fn forget(&mut self, window_id: u64)
        ensures
            final(self)@ == after_forget(old(self)@, window_id),
    {
        let ghost start = self.fired@;
        let mut i: usize = 0;
        while i < self.fired.len()
            invariant
                i <= self.fired@.len(),
                self.fired@.len() == start.len(),
                forall|j: int| 0 <= j < i ==> (#[trigger] self.fired@[j])@ == start[j]@.remove(window_id),
                forall|j: int| i <= j < start.len() ==> (#[trigger] self.fired@[j])@ == start[j]@,
            decreases self.fired@.len() - i,
        {
            self.fired[i].remove(&window_id);
            i += 1;
        }
        assert(self@ =~= after_forget(old(self)@, window_id));
    }
}

/// One call on a tracker.
pub enum TrackerCall {
    /// `should_fire` for a rule and a window.
    ShouldFire { rule: nat, id: u64 },
    /// `forget` for a window.
    Forget { id: u64 },
}

/// The records after one call.
pub open spec fn after_call(fired: Set<Firing>, call: TrackerCall) -> Set<Firing> {
    match call {
        TrackerCall::ShouldFire { rule, id } => after_fire(fired, rule, id),
        TrackerCall::Forget { id } => after_forget(fired, id),
    }
}

/// The records after a run of calls, made in order.
pub open spec fn after_calls(fired: Set<Firing>, calls: Seq<TrackerCall>) -> Set<Firing>
    decreases calls.len(),
{
    if calls.len() == 0 {
        fired
    } else {
        after_call(after_calls(fired, calls.drop_last()), calls.last())
    }
}

/// Whether none of `calls` forgets the window `id`.
pub open spec fn keeps_window(calls: Seq<TrackerCall>, id: u64) -> bool {
    forall|k: int| 0 <= k < calls.len() ==> calls[k] != (TrackerCall::Forget { id })
}

/// Once a rule has fired for a window, the pair is on record: asking again
/// right away gives no.
pub proof fn lemma_fire_is_recorded(fired: Set<Firing>, rule: nat, id: u64)
    ensures
        recorded(after_fire(fired, rule, id), rule, id),
{
}

/// A rule fires at most once for a window while the window is open: a pair
/// on record stays on record through every run of calls that does not
/// forget the window, so `should_fire` keeps answering no for it.
pub proof fn lemma_fired_stays_recorded(
    fired: Set<Firing>,
    calls: Seq<TrackerCall>,
    rule: nat,
    id: u64,
)
    requires
        recorded(fired, rule, id),
        keeps_window(calls, id),
    ensures
        recorded(after_calls(fired, calls), rule, id),
    decreases calls.len(),
{
    if calls.len() > 0 {
        let earlier = calls.drop_last();
        assert forall|k: int| 0 <= k < earlier.len() implies earlier[k] != (TrackerCall::Forget {
            id,
        }) by {
            assert(earlier[k] == calls[k]);
        }
        lemma_fired_stays_recorded(fired, earlier, rule, id);
        assert(calls.last() == calls[calls.len() - 1]);
    }
}

/// After a window was forgotten no rule has a record of it, so the next
/// `should_fire` for its identifier answers yes, for every rule.
pub proof fn lemma_forget_clears_window(fired: Set<Firing>, rule: nat, id: u64)
    ensures
        !recorded(after_forget(fired, id), rule, id),
{
}

/// Forgetting a window leaves the records of every other window as they were.
pub proof fn lemma_forget_keeps_other_windows(fired: Set<Firing>, rule: nat, id: u64, other: u64)
    requires
        other != id,
    ensures
        recorded(after_forget(fired, id), rule, other) == recorded(fired, rule, other),
{
}

/// A firing adds the record of its own pair and changes no other.
pub proof fn lemma_fire_touches_one_pair(
    fired: Set<Firing>,
    rule: nat,
    id: u64,
    other_rule: nat,
    other_id: u64,
)
    ensures
        recorded(after_fire(fired, rule, id), other_rule, other_id) == (recorded(
            fired,
            other_rule,
            other_id,
        ) || (other_rule == rule && other_id == id)),
{
}

} // verus!
