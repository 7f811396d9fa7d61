use vstd::prelude::*;

use crate::model::Bar;
use crate::model::Item;

verus! {

/// The lifecycle signals, by their POSIX numbers: a hangup asks for a
/// configuration reload (a deliberate no-op), while interrupt, quit and
/// terminate ask for an orderly exit.
pub const SIG_HUP: i32 = 1;

pub const SIG_INT: i32 = 2;

pub const SIG_QUIT: i32 = 3;

pub const SIG_TERM: i32 = 15;

/// Whether a tick with the given counter recomputes this item: the initial
/// pass (counter 0) recomputes everything; afterwards an item is due every
/// `interval` ticks, and an item with interval 0 is never due again.
pub open spec fn due_at(item: Item, counter: u64) -> bool {
    counter == 0 || (item.interval != 0 && counter % item.interval == 0)
}

/// Whether an external trigger with this identifier recomputes the item.
pub open spec fn triggered_by(item: Item, sig: i32) -> bool {
    item.signal == sig
}

/// What a recomputation pass selects by: a tick with its counter, or an
/// external trigger with its identifier.
pub enum PlanPred {
    Tick(u64),
    Signal(i32),
}

pub open spec fn plan_matches(p: PlanPred, item: Item) -> bool {
    match p {
        PlanPred::Tick(counter) => due_at(item, counter),
        PlanPred::Signal(sig) => triggered_by(item, sig),
    }
}

/// The indices of the items a pass recomputes, in display order.
pub open spec fn plan_spec(items: Seq<Item>, p: PlanPred) -> Seq<usize>
    decreases items.len(),
{
    if items.len() == 0 {
        Seq::empty()
    } else {
        let front = plan_spec(items.drop_last(), p);
        if plan_matches(p, items.last()) {
            front.push((items.len() - 1) as usize)
        } else {
            front
        }
    }
}

/// A plan holds exactly the indices of the matching items, each once, in
/// increasing order.
pub proof fn lemma_plan_characterization(items: Seq<Item>, p: PlanPred)
    requires
        items.len() <= usize::MAX,
    ensures
        forall|k: int| 0 <= k < plan_spec(items, p).len() ==> (plan_spec(items, p)[k] as int)
            < items.len() && plan_matches(p, items[plan_spec(items, p)[k] as int]),
        forall|i: int| 0 <= i < items.len() && plan_matches(p, items[i]) ==> plan_spec(
            items,
            p,
        ).contains(i as usize),
        forall|k1: int, k2: int| 0 <= k1 < k2 < plan_spec(items, p).len() ==> plan_spec(
            items,
            p,
        )[k1] < plan_spec(items, p)[k2],
    decreases items.len(),
{
    if items.len() > 0 {
        let prev = items.drop_last();
        lemma_plan_characterization(prev, p);
        let front = plan_spec(prev, p);
        let whole = plan_spec(items, p);
        let n = items.len() as int;
        assert forall|k: int| 0 <= k < whole.len() implies (whole[k] as int) < n && plan_matches(
            p,
            items[whole[k] as int],
        ) by {
            if plan_matches(p, items.last()) {
                assert(whole == front.push((n - 1) as usize));
                if k < front.len() {
                    assert(whole[k] == front[k]);
                    assert(items[front[k] as int] == prev[front[k] as int]);
                } else {
                    assert(whole[k] == (n - 1) as usize);
                }
            } else {
                assert(whole == front);
                assert(items[front[k] as int] == prev[front[k] as int]);
            }
        }
        assert forall|i: int| 0 <= i < n && plan_matches(p, items[i]) implies whole.contains(
            i as usize,
        ) by {
            if i < n - 1 {
                assert(prev[i] == items[i]);
                assert(front.contains(i as usize));
                let k = choose|k: int| 0 <= k < front.len() && #[trigger] front[k] == i as usize;
                assert(whole[k] == i as usize);
            } else {
                assert(items.last() == items[n - 1]);
                assert(whole == front.push((n - 1) as usize));
                assert(whole[whole.len() - 1] == (n - 1) as usize);
            }
        }
        assert forall|k1: int, k2: int| 0 <= k1 < k2 < whole.len() implies whole[k1]
            < whole[k2] by {
            if plan_matches(p, items.last()) {
                assert(whole == front.push((n - 1) as usize));
                if k2 < front.len() {
                    assert(whole[k1] == front[k1] && whole[k2] == front[k2]);
                } else {
                    assert(whole[k2] == (n - 1) as usize);
                    assert(whole[k1] == front[k1]);
                    assert((front[k1] as int) < n - 1);
                }
            }
        }
    }
}

/// Plan a tick-driven pass: the initial pass selects every item, a later
/// tick selects the items whose interval divides the counter.
pub fn tick_plan(bar: &Bar) -> (plan: Vec<usize>)
    ensures
        plan@ == plan_spec(bar.list@, PlanPred::Tick(bar.counter)),
{
    let ghost p = PlanPred::Tick(bar.counter);
    let mut plan: Vec<usize> = Vec::new();
    let mut i: usize = 0;
    proof {
        assert(bar.list@.take(0) =~= Seq::<Item>::empty());
    }
    while i < bar.list.len()
        invariant
            0 <= i <= bar.list@.len(),
            p == PlanPred::Tick(bar.counter),
            plan@ == plan_spec(bar.list@.take(i as int), p),
        decreases bar.list@.len() - i,
    {
        proof {
            assert(bar.list@.take(i as int + 1).drop_last() =~= bar.list@.take(i as int));
            assert(bar.list@.take(i as int + 1).last() == bar.list@[i as int]);
        }
        let it = &bar.list[i];
        if bar.counter == 0 || (it.interval != 0 && bar.counter % it.interval == 0) {
            plan.push(i);
        }
        i += 1;
    }
    proof {
        assert(bar.list@.take(bar.list@.len() as int) =~= bar.list@);
    }
    plan
}

/// Plan a trigger-driven pass: an external trigger selects exactly the
/// items configured with its identifier.  Identifier 0 means "no trigger"
/// and is never a real event.
pub fn trigger_plan(bar: &Bar, sig: i32) -> (plan: Vec<usize>)
    requires
        sig != 0,
    ensures
        plan@ == plan_spec(bar.list@, PlanPred::Signal(sig)),
{
    let ghost p = PlanPred::Signal(sig);
    let mut plan: Vec<usize> = Vec::new();
    let mut i: usize = 0;
    proof {
        assert(bar.list@.take(0) =~= Seq::<Item>::empty());
    }
    while i < bar.list.len()
        invariant
            0 <= i <= bar.list@.len(),
            p == PlanPred::Signal(sig),
            plan@ == plan_spec(bar.list@.take(i as int), p),
        decreases bar.list@.len() - i,
    {
        proof {
            assert(bar.list@.take(i as int + 1).drop_last() =~= bar.list@.take(i as int));
            assert(bar.list@.take(i as int + 1).last() == bar.list@[i as int]);
        }
        if bar.list[i].signal == sig {
            plan.push(i);
        }
        i += 1;
    }
    proof {
        assert(bar.list@.take(bar.list@.len() as int) =~= bar.list@);
    }
    plan
}

/// A pass publishes only when it recomputed at least one item.
pub fn should_publish(plan: &Vec<usize>) -> (b: bool)
    ensures
        b <==> plan@.len() > 0,
{
    plan.len() > 0
}

/// Store the producers' results of one pass: the item at `plan[k]` gets
/// `results[k]` as its text, every other item and every other part of the
/// bar stays as it was.  Absence (a failed producer) is stored like any
/// other result; no failure escapes the pass.
pub fn apply_results(bar: &mut Bar, plan: &Vec<usize>, results: Vec<Option<String>>)
    requires
        plan@.len() == results@.len(),
        forall|k: int| 0 <= k < plan@.len() ==> (plan@[k] as int) < old(bar).list@.len(),
        forall|k1: int, k2: int| 0 <= k1 < k2 < plan@.len() ==> plan@[k1] != plan@[k2],
    ensures
        final(bar).list@.len() == old(bar).list@.len(),
        forall|k: int| 0 <= k < plan@.len() ==> final(bar).list@[plan@[k] as int] == (Item {
            str: results@[k],
            ..old(bar).list@[plan@[k] as int]
        }),
        forall|i: int|
            0 <= i < old(bar).list@.len() && !plan@.contains(i as usize)
                ==> final(bar).list@[i] == old(bar).list@[i],
        final(bar).sep == old(bar).sep,
        final(bar).status2d_color == old(bar).status2d_color,
        final(bar).counter == old(bar).counter,
        final(bar).prefix == old(bar).prefix,
        final(bar).suffix == old(bar).suffix,
{
    let mut res = results;
    let mut k: usize = plan.len();
    while k > 0
        invariant
            0 <= k <= plan@.len(),
            plan@.len() == results@.len(),
            forall|k2: int| 0 <= k2 < plan@.len() ==> (plan@[k2] as int) < old(bar).list@.len(),
            forall|k1: int, k2: int| 0 <= k1 < k2 < plan@.len() ==> plan@[k1] != plan@[k2],
            res@ == results@.take(k as int),
            bar.list@.len() == old(bar).list@.len(),
            forall|k2: int| k <= k2 < plan@.len() ==> bar.list@[plan@[k2] as int] == (Item {
                str: results@[k2],
                ..old(bar).list@[plan@[k2] as int]
            }),
            forall|i: int|
                0 <= i < old(bar).list@.len() && !plan@.skip(k as int).contains(i as usize)
                    ==> bar.list@[i] == old(bar).list@[i],
            bar.sep == old(bar).sep,
            bar.status2d_color == old(bar).status2d_color,
            bar.counter == old(bar).counter,
            bar.prefix == old(bar).prefix,
            bar.suffix == old(bar).suffix,
        decreases k,
    {
        k -= 1;
        let idx = plan[k];
        let t = res.pop().unwrap();
        let ghost before = bar.list@;
        proof {
            assert(!plan@.skip(k as int + 1).contains(plan@[k as int])) by {
                if plan@.skip(k as int + 1).contains(plan@[k as int]) {
                    let w = choose|w: int|
                        0 <= w < plan@.skip(k as int + 1).len() && #[trigger] plan@.skip(
                            k as int + 1,
                        )[w] == plan@[k as int];
                    assert(plan@[w + k + 1] == plan@[k as int]);
                }
            }
            assert(before[idx as int] == old(bar).list@[idx as int]);
        }
        bar.list[idx].str = t;
        proof {
            assert(bar.list@ == before.update(idx as int, bar.list@[idx as int]));
            assert forall|i: int|
                0 <= i < old(bar).list@.len() && !plan@.skip(k as int).contains(i as usize)
                    implies bar.list@[i] == old(bar).list@[i] by {
                assert(plan@.skip(k as int)[0] == plan@[k as int]);
                assert(i != plan@[k as int]);
                assert forall|k2: int| k + 1 <= k2 < plan@.len() implies plan@[k2]
                    != (i as usize) by {
                    assert(plan@.skip(k as int)[k2 - k] == plan@[k2]);
                }
                assert(!plan@.skip(k as int + 1).contains(i as usize)) by {
                    if plan@.skip(k as int + 1).contains(i as usize) {
                        let w = choose|w: int|
                            0 <= w < plan@.skip(k as int + 1).len() && #[trigger] plan@.skip(
                                k as int + 1,
                            )[w] == (i as usize);
                        assert(plan@[w + k + 1] == (i as usize));
                    }
                }
            }
        }
    }
    proof {
        assert(plan@.skip(0) =~= plan@);
    }
}

/// What the scheduler does with a received signal: the reload and
/// terminate lifecycle signals never reach the items; everything else is
/// forwarded as an external trigger.
#[derive(Clone, Copy, Debug, PartialEq, Eq, Structural)]
pub enum SignalAction {
    Reload,
    Terminate,
    Trigger(i32),
}

pub open spec fn classify_spec(sig: i32) -> SignalAction {
    if sig == SIG_HUP {
        SignalAction::Reload
    } else if sig == SIG_TERM || sig == SIG_INT || sig == SIG_QUIT {
        SignalAction::Terminate
    } else {
        SignalAction::Trigger(sig)
    }
}

/// Sort a received signal into a lifecycle action or an external trigger.
pub fn classify_signal(sig: i32) -> (a: SignalAction)
    ensures
        a == classify_spec(sig),
{
    if sig == SIG_HUP {
        SignalAction::Reload
    } else if sig == SIG_TERM || sig == SIG_INT || sig == SIG_QUIT {
        SignalAction::Terminate
    } else {
        SignalAction::Trigger(sig)
    }
}

/// The signals the process listens for besides the items' own triggers.
pub open spec fn lifecycle_signals() -> Seq<i32> {
    seq![SIG_HUP, SIG_TERM, SIG_INT, SIG_QUIT]
}

/// The registered signal set after walking the items: each item's non-zero
/// trigger identifier is added once, in first-occurrence order, behind
/// whatever `acc` already holds.
pub open spec fn registry_spec(items: Seq<Item>, acc: Seq<i32>) -> Seq<i32>
    decreases items.len(),
{
    if items.len() == 0 {
        acc
    } else {
        let grown = if items[0].signal != 0 && !acc.contains(items[0].signal) {
            acc.push(items[0].signal)
        } else {
            acc
        };
        registry_spec(items.skip(1), grown)
    }
}

/// The registered set holds a signal exactly when the start set holds it
/// or some item carries it as a non-zero trigger identifier, and, when the
/// start set is duplicate-free, holds nothing twice.
pub proof fn lemma_registry_characterization(items: Seq<Item>, acc: Seq<i32>)
    requires
        forall|k1: int, k2: int| 0 <= k1 < k2 < acc.len() ==> acc[k1] != acc[k2],
    ensures
        forall|x: i32|
            #[trigger] registry_spec(items, acc).contains(x) <==> (acc.contains(x) || exists|i: int|
                0 <= i < items.len() && #[trigger] items[i].signal == x && x != 0),
        forall|k1: int, k2: int|
            0 <= k1 < k2 < registry_spec(items, acc).len() ==> registry_spec(items, acc)[k1]
                != registry_spec(items, acc)[k2],
    decreases items.len(),
{
    if items.len() > 0 {
        let s0 = items[0].signal;
        let rest = items.skip(1);
        let grown = if s0 != 0 && !acc.contains(s0) {
            acc.push(s0)
        } else {
            acc
        };
        assert forall|k1: int, k2: int| 0 <= k1 < k2 < grown.len() implies grown[k1]
            != grown[k2] by {
            if s0 != 0 && !acc.contains(s0) {
                if k2 == grown.len() - 1 {
                    assert(grown[k1] == acc[k1]);
                    if acc[k1] == s0 {
                        assert(acc.contains(s0));
                    }
                } else {
                    assert(grown[k1] == acc[k1] && grown[k2] == acc[k2]);
                }
            }
        }
        lemma_registry_characterization(rest, grown);
        assert(registry_spec(items, acc) == registry_spec(rest, grown));
        assert forall|x: i32| #[trigger] registry_spec(items, acc).contains(x) implies (
        acc.contains(x) || exists|i: int|
            0 <= i < items.len() && #[trigger] items[i].signal == x && x != 0) by {
            assert(registry_spec(rest, grown).contains(x));
            if grown.contains(x) && !acc.contains(x) {
                assert(s0 != 0 && x == s0);
                assert(items[0].signal == x && x != 0);
            } else if !grown.contains(x) {
                let i = choose|i: int|
                    0 <= i < rest.len() && #[trigger] rest[i].signal == x && x != 0;
                assert(items[i + 1].signal == x);
            }
        }
        assert forall|x: i32|
            (acc.contains(x) || exists|i: int|
                0 <= i < items.len() && #[trigger] items[i].signal == x && x
                    != 0) implies #[trigger] registry_spec(items, acc).contains(x) by {
            if acc.contains(x) {
                let k = choose|k: int| 0 <= k < acc.len() && #[trigger] acc[k] == x;
                if s0 != 0 && !acc.contains(s0) {
                    assert(grown[k] == x);
                } else {
                    assert(grown[k] == x);
                }
                assert(grown.contains(x));
            } else {
                let i = choose|i: int|
                    0 <= i < items.len() && #[trigger] items[i].signal == x && x != 0;
                if i == 0 {
                    if !acc.contains(s0) {
                        assert(grown[grown.len() - 1] == s0);
                        assert(grown.contains(x));
                    } else {
                        assert(acc.contains(x));
                        assert(false);
                    }
                } else {
                    assert(rest[i - 1].signal == x);
                    assert(exists|j: int| 0 <= j < rest.len() && #[trigger] rest[j].signal == x && x != 0);
                }
            }
            assert(registry_spec(rest, grown).contains(x));
        }
    }
}

fn contains_i32(v: &Vec<i32>, x: i32) -> (r: bool)
    ensures
        r == v@.contains(x),
{
    let mut i: usize = 0;
    while i < v.len()
        invariant
            0 <= i <= v@.len(),
            forall|j: int| 0 <= j < i ==> v@[j] != x,
        decreases v@.len() - i,
    {
        if v[i] == x {
            return true;
        }
        i += 1;
    }
    false
}

/// The signals to register at startup: the lifecycle signals, then every
/// distinct trigger identifier the items carry, duplicates collapsed.
pub fn signal_registry(bar: &Bar) -> (v: Vec<i32>)
    ensures
        v@ == registry_spec(bar.list@, lifecycle_signals()),
{
    let mut v: Vec<i32> = Vec::new();
    v.push(SIG_HUP);
    v.push(SIG_TERM);
    v.push(SIG_INT);
    v.push(SIG_QUIT);
    proof {
        assert(v@ =~= lifecycle_signals());
        assert(bar.list@.skip(0) =~= bar.list@);
    }
    let mut i: usize = 0;
    while i < bar.list.len()
        invariant
            0 <= i <= bar.list@.len(),
            registry_spec(bar.list@, lifecycle_signals()) == registry_spec(
                bar.list@.skip(i as int),
                v@,
            ),
        decreases bar.list@.len() - i,
    {
        proof {
            assert(bar.list@.skip(i as int)[0] == bar.list@[i as int]);
            assert(bar.list@.skip(i as int).skip(1) =~= bar.list@.skip(i as int + 1));
        }
        let s = bar.list[i].signal;
        if s != 0 && !contains_i32(&v, s) {
            v.push(s);
        }
        i += 1;
    }
    proof {
        assert(bar.list@.skip(bar.list@.len() as int) =~= Seq::<Item>::empty());
    }
    v
}

/// Finish a pass: store the producers' results as `apply_results` does,
/// then compose the line to publish — but only when the pass recomputed at
/// least one item; a pass that selected nothing publishes nothing.
pub fn finish_pass(bar: &mut Bar, plan: &Vec<usize>, results: Vec<Option<String>>) -> (line:
    Option<String>)
    requires
        plan@.len() == results@.len(),
        forall|k: int| 0 <= k < plan@.len() ==> (plan@[k] as int) < old(bar).list@.len(),
        forall|k1: int, k2: int| 0 <= k1 < k2 < plan@.len() ==> plan@[k1] != plan@[k2],
    ensures
        final(bar).list@.len() == old(bar).list@.len(),
        forall|k: int| 0 <= k < plan@.len() ==> final(bar).list@[plan@[k] as int] == (Item {
            str: results@[k],
            ..old(bar).list@[plan@[k] as int]
        }),
        forall|i: int|
            0 <= i < old(bar).list@.len() && !plan@.contains(i as usize)
                ==> final(bar).list@[i] == old(bar).list@[i],
        final(bar).sep == old(bar).sep,
        final(bar).status2d_color == old(bar).status2d_color,
        final(bar).counter == old(bar).counter,
        final(bar).prefix == old(bar).prefix,
        final(bar).suffix == old(bar).suffix,
        line matches Some(l) ==> plan@.len() > 0 && l@ == crate::compose::compose_spec(
            *final(bar),
        ),
        line is None <==> plan@.len() == 0,
{
    apply_results(bar, plan, results);
    if should_publish(plan) {
        Some(crate::compose::compose(bar))
    } else {
        None
    }
}

/// One tick has passed: the counter moves up, wrapping only at the integer
/// boundary, and nothing else changes.
pub fn advance_counter(bar: &mut Bar)
    ensures
        final(bar).counter == (if old(bar).counter == u64::MAX {
            0u64
        } else {
            (old(bar).counter + 1) as u64
        }),
        final(bar).list == old(bar).list,
        final(bar).sep == old(bar).sep,
        final(bar).status2d_color == old(bar).status2d_color,
        final(bar).prefix == old(bar).prefix,
        final(bar).suffix == old(bar).suffix,
{
    if bar.counter == u64::MAX {
        bar.counter = 0;
    } else {
        bar.counter = bar.counter + 1;
    }
}

} // verus!
