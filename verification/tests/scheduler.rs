use sbar::compose::compose;
use sbar::sched::advance_counter;
use sbar::sched::apply_results;
use sbar::sched::classify_signal;
use sbar::sched::finish_pass;
use sbar::sched::should_publish;
use sbar::sched::signal_registry;
use sbar::sched::tick_plan;
use sbar::sched::trigger_plan;
use sbar::sched::SignalAction;
use sbar::Bar;
use sbar::Item;

fn item(name: &str, interval: u64, signal: i32) -> Item {
    Item {
        name: String::from(name),
        params: Vec::new(),
        signal,
        interval,
        bg: None,
        fg: None,
        str: None,
        prefix: String::new(),
        suffix: String::new(),
    }
}

fn bar(items: Vec<Item>) -> Bar {
    Bar {
        list: items,
        sep: String::from("|"),
        status2d_color: false,
        counter: 0,
        prefix: String::new(),
        suffix: String::new(),
    }
}

#[test]
fn initial_tick_recomputes_everything() {
    let b = bar(vec![item("a", 5, 0), item("b", 0, 0)]);
    let plan = tick_plan(&b);
    assert_eq!(plan, vec![0, 1]);
    assert!(should_publish(&plan));
}

#[test]
fn quiet_ticks_recompute_nothing() {
    let mut b = bar(vec![item("a", 5, 0), item("b", 0, 0)]);
    b.counter = 1;
    for _ in 0..4 {
        let plan = tick_plan(&b);
        assert!(plan.is_empty());
        assert!(!should_publish(&plan));
        advance_counter(&mut b);
    }
    assert_eq!(b.counter, 5);
}

#[test]
fn two_item_tick_scenario() {
    // initial pass: both items recomputed, one publish
    let mut b = bar(vec![item("a", 5, 0), item("b", 0, 0)]);
    let plan = tick_plan(&b);
    assert_eq!(plan, vec![0, 1]);
    apply_results(
        &mut b,
        &plan,
        vec![Some(String::from("A0")), Some(String::from("B0"))],
    );
    assert!(should_publish(&plan));
    assert_eq!(compose(&b), "A0|B0");
    advance_counter(&mut b);
    // four quiet ticks: nothing recomputed, nothing published
    for _ in 0..4 {
        let plan = tick_plan(&b);
        assert!(!should_publish(&plan));
        advance_counter(&mut b);
    }
    // tick 5: only the interval-5 item is recomputed, and the bar is
    // republished even though the other item's text is unchanged
    let plan = tick_plan(&b);
    assert_eq!(plan, vec![0]);
    apply_results(&mut b, &plan, vec![Some(String::from("A5"))]);
    assert!(should_publish(&plan));
    assert_eq!(compose(&b), "A5|B0");
}

#[test]
fn interval_zero_item_never_due_again() {
    let mut b = bar(vec![item("once", 0, 0)]);
    b.counter = 1;
    for sig in [5, 46, 64] {
        assert!(trigger_plan(&b, sig).is_empty());
    }
    for _ in 0..100 {
        assert!(tick_plan(&b).is_empty());
        advance_counter(&mut b);
    }
}

#[test]
fn interval_item_due_exactly_on_multiples() {
    let mut b = bar(vec![item("slow", 3, 0)]);
    for counter in 0..10u64 {
        b.counter = counter;
        let due = !tick_plan(&b).is_empty();
        assert_eq!(due, counter % 3 == 0);
    }
}

#[test]
fn trigger_selects_exactly_matching_items() {
    let b = bar(vec![item("a", 0, 46), item("b", 0, 0), item("c", 1, 46)]);
    let plan = trigger_plan(&b, 46);
    assert_eq!(plan, vec![0, 2]);
    assert!(should_publish(&plan));
    let none = trigger_plan(&b, 7);
    assert!(none.is_empty());
    assert!(!should_publish(&none));
}

#[test]
fn failed_producer_is_isolated() {
    let mut b = bar(vec![item("a", 1, 0), item("b", 1, 0)]);
    let plan = tick_plan(&b);
    apply_results(&mut b, &plan, vec![None, Some(String::from("B"))]);
    let line = compose(&b);
    assert_eq!(line, "B");
    assert_eq!(b.list[0].str, None);
    assert_eq!(b.list[1].str, Some(String::from("B")));
}

#[test]
fn apply_results_touches_only_planned_items() {
    let mut b = bar(vec![item("a", 0, 0), item("b", 0, 0), item("c", 0, 0)]);
    b.list[0].str = Some(String::from("kept"));
    b.counter = 3;
    let plan = vec![1];
    apply_results(&mut b, &plan, vec![Some(String::from("new"))]);
    assert_eq!(b.list[0].str, Some(String::from("kept")));
    assert_eq!(b.list[1].str, Some(String::from("new")));
    assert_eq!(b.list[2].str, None);
    assert_eq!(b.counter, 3);
}

#[test]
fn finish_pass_publishes_iff_something_was_recomputed() {
    let mut b = bar(vec![item("a", 0, 46), item("b", 1, 0)]);
    b.list[1].str = Some(String::from("B"));
    let plan = trigger_plan(&b, 46);
    let line = finish_pass(&mut b, &plan, vec![Some(String::from("A"))]);
    assert_eq!(line, Some(String::from("A|B")));
    let empty_plan = trigger_plan(&b, 9);
    let line = finish_pass(&mut b, &empty_plan, Vec::new());
    assert_eq!(line, None);
}

#[test]
fn lifecycle_signals_classified() {
    assert_eq!(classify_signal(1), SignalAction::Reload);
    assert_eq!(classify_signal(2), SignalAction::Terminate);
    assert_eq!(classify_signal(3), SignalAction::Terminate);
    assert_eq!(classify_signal(15), SignalAction::Terminate);
    assert_eq!(classify_signal(46), SignalAction::Trigger(46));
    assert_eq!(classify_signal(64), SignalAction::Trigger(64));
}

#[test]
fn registry_holds_lifecycle_then_item_signals() {
    let b = bar(vec![item("a", 0, 46), item("b", 0, 0), item("c", 0, 46)]);
    assert_eq!(signal_registry(&b), vec![1, 15, 2, 3, 46]);
}

#[test]
fn registry_collapses_duplicates_with_lifecycle() {
    let b = bar(vec![item("a", 0, 15), item("b", 0, 34), item("c", 0, 34)]);
    assert_eq!(signal_registry(&b), vec![1, 15, 2, 3, 34]);
}

#[test]
fn counter_wraps_at_the_boundary() {
    let mut b = bar(vec![]);
    advance_counter(&mut b);
    assert_eq!(b.counter, 1);
    b.counter = u64::MAX;
    advance_counter(&mut b);
    assert_eq!(b.counter, 0);
}
