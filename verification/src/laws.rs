use vstd::prelude::*;

use crate::compose::compose_spec;
use crate::compose::texts_of;
use crate::model::Bar;
use crate::model::Item;
use crate::sched::due_at;
use crate::sched::lemma_plan_characterization;
use crate::sched::plan_matches;
use crate::sched::plan_spec;
use crate::sched::triggered_by;
use crate::sched::PlanPred;

verus! {

/// A pass's plan holds an item exactly when the pass's criterion matches
/// it.
proof fn lemma_plan_contains_iff(items: Seq<Item>, p: PlanPred, i: int)
    requires
        0 <= i < items.len(),
        items.len() <= usize::MAX,
    ensures
        plan_spec(items, p).contains(i as usize) <==> plan_matches(p, items[i]),
{
    lemma_plan_characterization(items, p);
    let plan = plan_spec(items, p);
    if plan.contains(i as usize) {
        let k = choose|k: int| 0 <= k < plan.len() && #[trigger] plan[k] == i as usize;
        assert(plan_matches(p, items[plan[k] as int]));
    }
}

/// An item with interval 0 and no trigger identifier is recomputed exactly
/// once: the initial pass (counter 0) selects it, no later tick does, and
/// no external trigger ever does.
pub proof fn lemma_interval_zero_only_initial(item: Item, counter: u64, sig: i32)
    requires
        item.interval == 0,
        item.signal == 0,
        sig != 0,
    ensures
        due_at(item, counter) <==> counter == 0,
        !triggered_by(item, sig),
{
}

/// An item with interval n > 0 is recomputed exactly on the ticks whose
/// counter is a multiple of n: 0, n, 2n, and so on.
pub proof fn lemma_interval_schedule(item: Item, counter: u64)
    requires
        item.interval > 0,
    ensures
        due_at(item, counter) <==> counter % item.interval == 0,
{
    assert(0u64 % item.interval == 0);
}

/// At the level of whole passes: an item with interval 0 and no trigger
/// identifier stands in the initial tick's plan and in no other plan,
/// however many ticks and trigger events follow.
pub proof fn lemma_untriggered_item_planned_only_initially(
    items: Seq<Item>,
    i: int,
    counter: u64,
    sig: i32,
)
    requires
        0 <= i < items.len(),
        items.len() <= usize::MAX,
        items[i].interval == 0,
        items[i].signal == 0,
        sig != 0,
    ensures
        plan_spec(items, PlanPred::Tick(counter)).contains(i as usize) <==> counter == 0,
        !plan_spec(items, PlanPred::Signal(sig)).contains(i as usize),
{
    lemma_plan_contains_iff(items, PlanPred::Tick(counter), i);
    lemma_plan_contains_iff(items, PlanPred::Signal(sig), i);
}

/// At the level of whole passes: an item with interval n > 0 stands in a
/// tick's plan exactly when the counter is a multiple of n.
pub proof fn lemma_interval_item_planned_on_multiples(items: Seq<Item>, i: int, counter: u64)
    requires
        0 <= i < items.len(),
        items.len() <= usize::MAX,
        items[i].interval > 0,
    ensures
        plan_spec(items, PlanPred::Tick(counter)).contains(i as usize) <==> counter
            % items[i].interval == 0,
{
    lemma_plan_contains_iff(items, PlanPred::Tick(counter), i);
    lemma_interval_schedule(items[i], counter);
}

/// A trigger event with a non-zero identifier plans exactly the items
/// configured with that identifier, and there is something to publish
/// exactly when at least one item matches.
pub proof fn lemma_trigger_selects_exactly(items: Seq<Item>, sig: i32)
    requires
        sig != 0,
        items.len() <= usize::MAX,
    ensures
        forall|i: int|
            0 <= i < items.len() ==> (plan_spec(items, PlanPred::Signal(sig)).contains(i as usize)
                <==> items[i].signal == sig),
        plan_spec(items, PlanPred::Signal(sig)).len() > 0 <==> exists|i: int|
            0 <= i < items.len() && #[trigger] items[i].signal == sig,
{
    let plan = plan_spec(items, PlanPred::Signal(sig));
    lemma_plan_characterization(items, PlanPred::Signal(sig));
    assert forall|i: int|
        0 <= i < items.len() && plan.contains(i as usize) implies items[i].signal == sig by {
        let k = choose|k: int| 0 <= k < plan.len() && #[trigger] plan[k] == i as usize;
        assert(triggered_by(items[plan[k] as int], sig));
    }
    if plan.len() > 0 {
        assert(triggered_by(items[plan[0] as int], sig));
    }
    if exists|i: int| 0 <= i < items.len() && #[trigger] items[i].signal == sig {
        let i = choose|i: int| 0 <= i < items.len() && #[trigger] items[i].signal == sig;
        assert(plan.contains(i as usize));
    }
}

/// Composing twice from the same bar state, with no recomputation in
/// between, yields identical output: the composed line is a function of
/// the state alone.
pub proof fn lemma_compose_idempotent(bar: Bar, first: Seq<char>, second: Seq<char>)
    requires
        first == compose_spec(bar),
        second == compose_spec(bar),
    ensures
        first == second,
{
}

/// An item whose producer failed (or has not run) contributes nothing to
/// the composed line: the line reads as if the item were not there at all.
pub proof fn lemma_absent_item_contributes_nothing(items: Seq<Item>, i: int)
    requires
        0 <= i < items.len(),
        items[i].str is None,
    ensures
        texts_of(items) == texts_of(items.remove(i)),
    decreases items.len(),
{
    if i == items.len() - 1 {
        assert(items.remove(i) =~= items.drop_last());
    } else {
        let prev = items.drop_last();
        lemma_absent_item_contributes_nothing(prev, i);
        assert(items.remove(i).drop_last() =~= prev.remove(i));
        assert(items.remove(i).last() == items.last());
    }
}

/// An item whose producer succeeded keeps its text in the composed parts,
/// whatever happened to the other items in the same pass.
pub proof fn lemma_present_item_included(items: Seq<Item>, i: int, t: String)
    requires
        0 <= i < items.len(),
        items[i].str == Some(t),
    ensures
        texts_of(items).contains(t@),
    decreases items.len(),
{
    if i == items.len() - 1 {
        let parts = texts_of(items);
        assert(parts.last() == t@);
        assert(parts.contains(t@));
    } else {
        let prev = items.drop_last();
        lemma_present_item_included(prev, i, t);
        let k = choose|k: int|
            0 <= k < texts_of(prev).len() && #[trigger] texts_of(prev)[k] == t@;
        assert(texts_of(items)[k] == t@);
        assert(texts_of(items).contains(t@));
    }
}

} // verus!
