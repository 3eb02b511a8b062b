//! The engine: a rule set, the record of what has fired, and what each
//! event of the compositor leads to.

use crate::dispatch::commands_view;
use crate::dispatch::dispatch;
use crate::dispatch::emitted;
use crate::dispatch::Command;
use crate::dispatch::CommandView;
use crate::rule::applying;
use crate::rule::rules_view;
use crate::rule::Rule;
use crate::rule::RuleView;
use crate::tracker::after_fire;
use crate::tracker::after_forget;
use crate::tracker::recorded;
use crate::tracker::DedupTracker;
use crate::tracker::Firing;
use crate::window::Window;
use crate::window::WindowView;
use vstd::prelude::*;

verus! {

/// What the compositor reports.
#[derive(Clone, Debug, PartialEq, Eq)]
pub enum Event {
    /// The full list of windows was replaced.
    WindowsChanged { windows: Vec<Window> },
    /// A window was opened, or something about it changed.
    WindowOpenedOrChanged { window: Window },
    /// A window was closed.
    WindowClosed { id: u64 },
    /// Any other event. It is ignored.
    Other,
}

/// The mathematical content of an [`Event`].
pub enum EventView {
    WindowsChanged { windows: Seq<WindowView> },
    WindowOpenedOrChanged { window: WindowView },
    WindowClosed { id: u64 },
    Other,
}

/// The content of a list of windows, in order.
pub open spec fn windows_view(windows: Seq<Window>) -> Seq<WindowView> {
    windows.map_values(|w: Window| w@)
}

impl View for Event {
    type V = EventView;

    open spec fn view(&self) -> EventView {
        match *self {
            Event::WindowsChanged { windows } => EventView::WindowsChanged {
                windows: windows_view(windows@),
            },
            Event::WindowOpenedOrChanged { window } => EventView::WindowOpenedOrChanged {
                window: window@,
            },
            Event::WindowClosed { id } => EventView::WindowClosed { id },
            Event::Other => EventView::Other,
        }
    }
}

/// The commands of one rule match. They are sent in order, each after the
/// one before it was acknowledged; when one of them fails, the rest of this
/// batch is dropped, and the batches of other rule matches are still sent.
#[derive(Clone, Debug, PartialEq, Eq)]
pub struct Dispatch {
    /// The index of the rule that fired.
    pub rule_index: usize,
    /// The identifier of the window it fired for.
    pub window_id: u64,
    /// What to send, in order.
    pub commands: Vec<Command>,
}

/// The mathematical content of a [`Dispatch`].
pub struct DispatchView {
    pub rule_index: nat,
    pub window_id: u64,
    pub commands: Seq<CommandView>,
}

impl View for Dispatch {
    type V = DispatchView;

    open spec fn view(&self) -> DispatchView {
        DispatchView {
            rule_index: self.rule_index as nat,
            window_id: self.window_id,
            commands: commands_view(self.commands@),
        }
    }
}

/// The content of a list of dispatches, in order.
pub open spec fn dispatches_view(dispatches: Seq<Dispatch>) -> Seq<DispatchView> {
    dispatches.map_values(|d: Dispatch| d@)
}

/// The records of what has fired, and the dispatches that an event gave.
pub struct Outcome {
    pub fired: Set<Firing>,
    pub dispatches: Seq<DispatchView>,
}

/// What one window leads to. The rules are taken in order, each on its own:
/// a rule fires when it applies to the window and has no record of the
/// window's identifier. It then gets the record, and its commands are added.
pub open spec fn window_outcome(rules: Seq<RuleView>, fired: Set<Firing>, w: WindowView) -> Outcome
    decreases rules.len(),
{
    if rules.len() == 0 {
        Outcome { fired, dispatches: Seq::empty() }
    } else {
        let last = (rules.len() - 1) as nat;
        let earlier = window_outcome(rules.drop_last(), fired, w);
        if rules.last().applies(w) && !recorded(earlier.fired, last, w.id) {
            Outcome {
                fired: after_fire(earlier.fired, last, w.id),
                dispatches: earlier.dispatches.push(
                    DispatchView {
                        rule_index: last,
                        window_id: w.id,
                        commands: emitted(w, rules.last().actions),
                    },
                ),
            }
        } else {
            earlier
        }
    }
}

/// What a list of windows leads to: each window in turn, on the records
/// that the windows before it left.
pub open spec fn windows_outcome(
    rules: Seq<RuleView>,
    fired: Set<Firing>,
    windows: Seq<WindowView>,
) -> Outcome
    decreases windows.len(),
{
    if windows.len() == 0 {
        Outcome { fired, dispatches: Seq::empty() }
    } else {
        let earlier = windows_outcome(rules, fired, windows.drop_last());
        let last = window_outcome(rules, earlier.fired, windows.last());
        Outcome { fired: last.fired, dispatches: earlier.dispatches + last.dispatches }
    }
}

/// What an event leads to. A closed window is forgotten; another kind of
/// event changes nothing.
pub open spec fn event_outcome(rules: Seq<RuleView>, fired: Set<Firing>, event: EventView) -> Outcome {
    match event {
        EventView::WindowsChanged { windows } => windows_outcome(rules, fired, windows),
        EventView::WindowOpenedOrChanged { window } => window_outcome(rules, fired, window),
        EventView::WindowClosed { id } => Outcome {
            fired: after_forget(fired, id),
            dispatches: Seq::empty(),
        },
        EventView::Other => Outcome { fired, dispatches: Seq::empty() },
    }
}

/// The rules that fired, by their indices, in the order of the dispatches.
pub open spec fn fired_rules(dispatches: Seq<DispatchView>) -> Seq<nat> {
    dispatches.map_values(|d: DispatchView| d.rule_index)
}

/// What is on record after a window was handled: what was on record before,
/// and the window's identifier for every rule that applies to it.
pub proof fn lemma_window_outcome_records(
    rules: Seq<RuleView>,
    fired: Set<Firing>,
    w: WindowView,
    rule: nat,
    id: u64,
)
    ensures
        recorded(window_outcome(rules, fired, w).fired, rule, id) == (recorded(fired, rule, id) || (
        id == w.id && rule < rules.len() && rules[rule as int].applies(w))),
    decreases rules.len(),
{
    if rules.len() > 0 {
        lemma_window_outcome_records(rules.drop_last(), fired, w, rule, id);
        if rule < rules.len() - 1 {
            assert(rules.drop_last()[rule as int] == rules[rule as int]);
        }
    }
}

/// A window for which every rule that applies is on record leads to nothing.
pub proof fn lemma_recorded_window_gives_nothing(
    rules: Seq<RuleView>,
    fired: Set<Firing>,
    w: WindowView,
)
    requires
        forall|rule: nat|
            rule < rules.len() && rules[rule as int].applies(w) ==> #[trigger] recorded(
                fired,
                rule,
                w.id,
            ),
    ensures
        window_outcome(rules, fired, w).fired == fired,
        window_outcome(rules, fired, w).dispatches == Seq::<DispatchView>::empty(),
    decreases rules.len(),
{
    if rules.len() > 0 {
        let earlier = rules.drop_last();
        assert forall|rule: nat|
            rule < earlier.len() && earlier[rule as int].applies(w) implies #[trigger] recorded(
            fired,
            rule,
            w.id,
        ) by {
            assert(earlier[rule as int] == rules[rule as int]);
        }
        lemma_recorded_window_gives_nothing(earlier, fired, w);
        let last = (rules.len() - 1) as nat;
        if rules.last().applies(w) {
            assert(recorded(fired, last, w.id));
        }
    }
}

/// A rule fires at most once for a window while it is open: the same
/// snapshot handled a second time leads to no dispatch and no new record.
pub proof fn lemma_window_fires_once(rules: Seq<RuleView>, fired: Set<Firing>, w: WindowView)
    ensures
        window_outcome(rules, window_outcome(rules, fired, w).fired, w).dispatches == Seq::<
            DispatchView,
        >::empty(),
        window_outcome(rules, window_outcome(rules, fired, w).fired, w).fired == window_outcome(
            rules,
            fired,
            w,
        ).fired,
{
    let after = window_outcome(rules, fired, w).fired;
    assert forall|rule: nat|
        rule < rules.len() && rules[rule as int].applies(w) implies #[trigger] recorded(
        after,
        rule,
        w.id,
    ) by {
        lemma_window_outcome_records(rules, fired, w, rule, w.id);
    }
    lemma_recorded_window_gives_nothing(rules, after, w);
}

/// For a window of which nothing is on record, exactly the rules that apply
/// to it fire, in the order of the rule set.
pub proof fn lemma_unrecorded_window_fires_all(
    rules: Seq<RuleView>,
    fired: Set<Firing>,
    w: WindowView,
)
    requires
        forall|rule: nat| !recorded(fired, rule, w.id),
    ensures
        fired_rules(window_outcome(rules, fired, w).dispatches) == applying(rules, w),
    decreases rules.len(),
{
    if rules.len() > 0 {
        let earlier = window_outcome(rules.drop_last(), fired, w);
        let last = (rules.len() - 1) as nat;
        lemma_unrecorded_window_fires_all(rules.drop_last(), fired, w);
        lemma_window_outcome_records(rules.drop_last(), fired, w, last, w.id);
        assert(!recorded(earlier.fired, last, w.id));
        if rules.last().applies(w) {
            let d = DispatchView {
                rule_index: last,
                window_id: w.id,
                commands: emitted(w, rules.last().actions),
            };
            assert(fired_rules(earlier.dispatches.push(d)) =~= fired_rules(
                earlier.dispatches,
            ).push(last));
        }
    } else {
        assert(fired_rules(Seq::<DispatchView>::empty()) =~= Seq::<nat>::empty());
    }
}

/// After a window was closed, a window that comes with the same identifier
/// is a new one: every rule that applies to it fires again.
pub proof fn lemma_closed_window_fires_again(
    rules: Seq<RuleView>,
    fired: Set<Firing>,
    w: WindowView,
)
    ensures
        fired_rules(
            window_outcome(
                rules,
                event_outcome(rules, fired, EventView::WindowClosed { id: w.id }).fired,
                w,
            ).dispatches,
        ) == applying(rules, w),
{
    lemma_unrecorded_window_fires_all(rules, after_forget(fired, w.id), w);
}

/// Every dispatch carries the commands of its rule for its window: the
/// rule's actions in sending order.
pub proof fn lemma_dispatch_carries_rule_actions(
    rules: Seq<RuleView>,
    fired: Set<Firing>,
    w: WindowView,
    k: int,
)
    requires
        0 <= k < window_outcome(rules, fired, w).dispatches.len(),
    ensures
        ({
            let d = window_outcome(rules, fired, w).dispatches[k];
            &&& d.rule_index < rules.len()
            &&& d.window_id == w.id
            &&& rules[d.rule_index as int].applies(w)
            &&& !recorded(fired, d.rule_index, w.id)
            &&& d.commands == emitted(w, rules[d.rule_index as int].actions)
        }),
    decreases rules.len(),
{
    if rules.len() > 0 {
        let earlier = window_outcome(rules.drop_last(), fired, w);
        let last = (rules.len() - 1) as nat;
        if k < earlier.dispatches.len() {
            lemma_dispatch_carries_rule_actions(rules.drop_last(), fired, w, k);
            let d = earlier.dispatches[k];
            assert(rules.drop_last()[d.rule_index as int] == rules[d.rule_index as int]);
        } else {
            lemma_window_outcome_records(rules.drop_last(), fired, w, last, w.id);
        }
    }
}

/// What a run of events leads to: each event in turn, on the records that
/// the events before it left.
pub open spec fn events_outcome(
    rules: Seq<RuleView>,
    fired: Set<Firing>,
    events: Seq<EventView>,
) -> Outcome
    decreases events.len(),
{
    if events.len() == 0 {
        Outcome { fired, dispatches: Seq::empty() }
    } else {
        let earlier = events_outcome(rules, fired, events.drop_last());
        let last = event_outcome(rules, earlier.fired, events.last());
        Outcome { fired: last.fired, dispatches: earlier.dispatches + last.dispatches }
    }
}

/// Whether none of `events` closes the window `id`.
pub open spec fn stays_open(events: Seq<EventView>, id: u64) -> bool {
    forall|k: int| 0 <= k < events.len() ==> events[k] != (EventView::WindowClosed { id })
}

/// Whether one of `dispatches` is for `rule` and the window `id`.
pub open spec fn fires(dispatches: Seq<DispatchView>, rule: nat, id: u64) -> bool {
    exists|k: int|
        0 <= k < dispatches.len() && (#[trigger] dispatches[k]).rule_index == rule
            && dispatches[k].window_id == id
}

/// What fires gets its record.
pub proof fn lemma_fired_rule_is_recorded(
    rules: Seq<RuleView>,
    fired: Set<Firing>,
    w: WindowView,
    k: int,
)
    requires
        0 <= k < window_outcome(rules, fired, w).dispatches.len(),
    ensures
        recorded(
            window_outcome(rules, fired, w).fired,
            window_outcome(rules, fired, w).dispatches[k].rule_index,
            window_outcome(rules, fired, w).dispatches[k].window_id,
        ),
{
    let d = window_outcome(rules, fired, w).dispatches[k];
    lemma_dispatch_carries_rule_actions(rules, fired, w, k);
    lemma_window_outcome_records(rules, fired, w, d.rule_index, d.window_id);
}

/// A rule on record for a window does not fire for any snapshot, and stays
/// on record.
proof fn lemma_recorded_rule_silent_for_window(
    rules: Seq<RuleView>,
    fired: Set<Firing>,
    w: WindowView,
    rule: nat,
    id: u64,
)
    requires
        recorded(fired, rule, id),
    ensures
        recorded(window_outcome(rules, fired, w).fired, rule, id),
        !fires(window_outcome(rules, fired, w).dispatches, rule, id),
{
    lemma_window_outcome_records(rules, fired, w, rule, id);
    let dispatches = window_outcome(rules, fired, w).dispatches;
    assert forall|k: int| 0 <= k < dispatches.len() implies !((#[trigger] dispatches[k]).rule_index
        == rule && dispatches[k].window_id == id) by {
        lemma_dispatch_carries_rule_actions(rules, fired, w, k);
    }
}

/// A rule on record for a window does not fire for any list of snapshots,
/// and stays on record.
proof fn lemma_recorded_rule_silent_for_windows(
    rules: Seq<RuleView>,
    fired: Set<Firing>,
    windows: Seq<WindowView>,
    rule: nat,
    id: u64,
)
    requires
        recorded(fired, rule, id),
    ensures
        recorded(windows_outcome(rules, fired, windows).fired, rule, id),
        !fires(windows_outcome(rules, fired, windows).dispatches, rule, id),
    decreases windows.len(),
{
    if windows.len() > 0 {
        let earlier = windows_outcome(rules, fired, windows.drop_last());
        lemma_recorded_rule_silent_for_windows(rules, fired, windows.drop_last(), rule, id);
        lemma_recorded_rule_silent_for_window(rules, earlier.fired, windows.last(), rule, id);
        let last = window_outcome(rules, earlier.fired, windows.last());
        lemma_fires_in_either(earlier.dispatches, last.dispatches, rule, id);
    }
}

/// A dispatch of a joined list is a dispatch of one of its two parts.
proof fn lemma_fires_in_either(
    first: Seq<DispatchView>,
    second: Seq<DispatchView>,
    rule: nat,
    id: u64,
)
    ensures
        fires(first + second, rule, id) == (fires(first, rule, id) || fires(second, rule, id)),
{
    let joined = first + second;
    if fires(joined, rule, id) {
        let k = choose|k: int|
            0 <= k < joined.len() && (#[trigger] joined[k]).rule_index == rule
                && joined[k].window_id == id;
        if k < first.len() {
            assert(first[k] == joined[k]);
        } else {
            assert(second[k - first.len()] == joined[k]);
        }
    }
    if fires(first, rule, id) {
        let k = choose|k: int|
            0 <= k < first.len() && (#[trigger] first[k]).rule_index == rule && first[k].window_id
                == id;
        assert(joined[k] == first[k]);
    }
    if fires(second, rule, id) {
        let k = choose|k: int|
            0 <= k < second.len() && (#[trigger] second[k]).rule_index == rule
                && second[k].window_id == id;
        assert(joined[k + first.len()] == second[k]);
    }
}

/// A rule fires at most once for a window between its opening and its
/// closing: once the rule is on record for the window, no run of events
/// makes it fire for that window again, as long as none of them closes the
/// window. The window may change in any way meanwhile.
pub proof fn lemma_fires_once_while_open(
    rules: Seq<RuleView>,
    fired: Set<Firing>,
    events: Seq<EventView>,
    rule: nat,
    id: u64,
)
    requires
        recorded(fired, rule, id),
        stays_open(events, id),
    ensures
        recorded(events_outcome(rules, fired, events).fired, rule, id),
        !fires(events_outcome(rules, fired, events).dispatches, rule, id),
    decreases events.len(),
{
    if events.len() > 0 {
        let before = events.drop_last();
        assert forall|k: int| 0 <= k < before.len() implies before[k] != (EventView::WindowClosed {
            id,
        }) by {
            assert(before[k] == events[k]);
        }
        lemma_fires_once_while_open(rules, fired, before, rule, id);
        let earlier = events_outcome(rules, fired, before);
        let last = event_outcome(rules, earlier.fired, events.last());
        assert(events.last() == events[events.len() - 1]);
        match events.last() {
            EventView::WindowsChanged { windows } => {
                lemma_recorded_rule_silent_for_windows(rules, earlier.fired, windows, rule, id);
            },
            EventView::WindowOpenedOrChanged { window } => {
                lemma_recorded_rule_silent_for_window(rules, earlier.fired, window, rule, id);
            },
            EventView::WindowClosed { id: closed } => {
                assert(closed != id);
            },
            EventView::Other => {},
        }
        lemma_fires_in_either(earlier.dispatches, last.dispatches, rule, id);
    }
}

/// A rule set with the record of what has fired.
pub struct Engine {
    rules: Vec<Rule>,
    tracker: DedupTracker,
}

impl Engine {
    /// The rules, in order.
    pub closed spec fn rules(&self) -> Seq<RuleView> {
        rules_view(self.rules@)
    }

    /// The rules that have fired, each with the window it has fired for.
    pub closed spec fn fired(&self) -> Set<Firing> {
        self.tracker@
    }

    /// An engine for `rules` in which nothing has fired yet.
    pub fn new(rules: Vec<Rule>) -> (engine: Engine)
        ensures
            engine.rules() == rules_view(rules@),
            engine.fired() == Set::<Firing>::empty(),
    {
        Engine { rules, tracker: DedupTracker::new() }
    }

    /// The number of rules.
    pub fn rule_count(&self) -> (n: usize)
        ensures
            n == self.rules().len(),
    {
        self.rules.len()
    }

    /// Handles one window snapshot: every rule that applies to it and has
    /// not fired for it yet fires now. The dispatches come in rule order.
    pub fn handle_window(&mut self, window: &Window) -> (dispatches: Vec<Dispatch>)
        ensures
            final(self).rules() == old(self).rules(),
            final(self).fired() == window_outcome(
                old(self).rules(),
                old(self).fired(),
                window@,
            ).fired,
            dispatches_view(dispatches@) == window_outcome(
                old(self).rules(),
                old(self).fired(),
                window@,
            ).dispatches,
    {
        let mut dispatches: Vec<Dispatch> = Vec::new();
        let ghost rules = self.rules();
        let ghost start = self.fired();
        let mut i: usize = 0;
        while i < self.rules.len()
            invariant
                i <= self.rules@.len(),
                self.rules() == rules,
                self.tracker@ == window_outcome(rules.take(i as int), start, window@).fired,
                dispatches_view(dispatches@) == window_outcome(
                    rules.take(i as int),
                    start,
                    window@,
                ).dispatches,
            decreases self.rules@.len() - i,
        {
            assert(rules.take(i + 1).drop_last() =~= rules.take(i as int));
            if self.rules[i].applies(window) {
                let ghost before = self.tracker@;
                if self.tracker.should_fire(i, window.id) {
                    let commands = dispatch(window, &self.rules[i].actions);
                    let d = Dispatch { rule_index: i, window_id: window.id, commands };
                    proof {
                        dispatches@.lemma_push_map_commute(|d: Dispatch| d@, d);
                    }
                    dispatches.push(d);
                } else {
                    assert(self.tracker@ =~= before);
                }
            }
            i += 1;
        }
        assert(rules.take(i as int) =~= rules);
        dispatches
    }

    /// Handles one event. A changed window, or each window of a changed
    /// list in turn, is held against every rule; a closed window is
    /// forgotten; any other event leaves everything as it is.
    pub fn handle_event(&mut self, event: &Event) -> (dispatches: Vec<Dispatch>)
        ensures
            final(self).rules() == old(self).rules(),
            final(self).fired() == event_outcome(old(self).rules(), old(self).fired(), event@).fired,
            dispatches_view(dispatches@) == event_outcome(
                old(self).rules(),
                old(self).fired(),
                event@,
            ).dispatches,
    {
        match event {
            Event::WindowsChanged { windows } => {
                let mut dispatches: Vec<Dispatch> = Vec::new();
                let ghost rules = self.rules();
                let ghost start = self.fired();
                let ghost all = windows_view(windows@);
                let mut k: usize = 0;
                while k < windows.len()
                    invariant
                        k <= windows@.len(),
                        all == windows_view(windows@),
                        self.rules() == rules,
                        self.fired() == windows_outcome(rules, start, all.take(k as int)).fired,
                        dispatches_view(dispatches@) == windows_outcome(
                            rules,
                            start,
                            all.take(k as int),
                        ).dispatches,
                    decreases windows@.len() - k,
                {
                    assert(all.take(k + 1).drop_last() =~= all.take(k as int));
                    let ghost sent = dispatches@;
                    let mut more = self.handle_window(&windows[k]);
                    let ghost added = more@;
                    dispatches.append(&mut more);
                    assert(dispatches_view(sent + added) =~= dispatches_view(sent)
                        + dispatches_view(added));
                    k += 1;
                }
                assert(all.take(k as int) =~= all);
                dispatches
            },
            Event::WindowOpenedOrChanged { window } => self.handle_window(window),
            Event::WindowClosed { id } => {
                self.tracker.forget(*id);
                let dispatches: Vec<Dispatch> = Vec::new();
                assert(dispatches_view(dispatches@) =~= Seq::<DispatchView>::empty());
                dispatches
            },
            Event::Other => {
                let dispatches: Vec<Dispatch> = Vec::new();
                assert(dispatches_view(dispatches@) =~= Seq::<DispatchView>::empty());
                dispatches
            },
        }
    }
}

} // verus!
