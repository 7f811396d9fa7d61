use sbar::compose::compose;
use sbar::compose::has_nul;
use sbar::compose::join_all;
use sbar::render::Kind;
use sbar::Bar;
use sbar::Item;

fn item_with_text(text: Option<&str>) -> Item {
    Item {
        name: String::from("echo"),
        params: Vec::new(),
        signal: 0,
        interval: 0,
        bg: None,
        fg: None,
        str: text.map(String::from),
        prefix: String::new(),
        suffix: String::new(),
    }
}

fn bar_with(items: Vec<Item>, sep: &str) -> Bar {
    Bar {
        list: items,
        sep: String::from(sep),
        status2d_color: false,
        counter: 0,
        prefix: String::new(),
        suffix: String::new(),
    }
}

#[test]
fn absent_item_leaves_no_stray_separator() {
    let b = bar_with(
        vec![
            item_with_text(Some("X")),
            item_with_text(None),
            item_with_text(Some("Z")),
        ],
        "|",
    );
    assert_eq!(compose(&b), "X|Z");
}

#[test]
fn empty_bar_composes_to_nothing() {
    let b = bar_with(vec![], "|");
    assert_eq!(compose(&b), "");
}

#[test]
fn all_absent_composes_to_nothing() {
    let b = bar_with(vec![item_with_text(None), item_with_text(None)], "|");
    assert_eq!(compose(&b), "");
}

#[test]
fn single_item_needs_no_separator() {
    let b = bar_with(vec![item_with_text(Some("only"))], "|");
    assert_eq!(compose(&b), "only");
}

#[test]
fn empty_separator_concatenates_directly() {
    let b = bar_with(vec![item_with_text(Some("X")), item_with_text(Some("Z"))], "");
    assert_eq!(compose(&b), "XZ");
}

#[test]
fn composing_twice_yields_identical_output() {
    let b = bar_with(
        vec![item_with_text(Some("a")), item_with_text(None), item_with_text(Some("c"))],
        " :: ",
    );
    assert_eq!(compose(&b), compose(&b));
}

#[test]
fn join_all_joins_every_string() {
    let v = vec![String::from("a"), String::from("b"), String::from("c")];
    assert_eq!(join_all(&v, ", "), "a, b, c");
    assert_eq!(join_all(&Vec::new(), ", "), "");
    assert_eq!(join_all(&vec![String::from("one")], ", "), "one");
}

#[test]
fn nul_detection() {
    assert!(has_nul("a\0b"));
    assert!(!has_nul("plain"));
    assert!(!has_nul(""));
}

#[test]
fn render_decorates_with_prefix_and_suffix() {
    let mut it = item_with_text(None);
    it.prefix = String::from("[");
    it.suffix = String::from("]");
    let b = bar_with(vec![], "|");
    let r = it.render(&b, Some(String::from("42")));
    assert_eq!(r, Some(String::from("[42]")));
}

#[test]
fn render_falls_back_to_bar_decoration() {
    let it = item_with_text(None);
    let mut b = bar_with(vec![], "|");
    b.prefix = String::from("< ");
    b.suffix = String::from(" >");
    let r = it.render(&b, Some(String::from("42")));
    assert_eq!(r, Some(String::from("< 42 >")));
}

#[test]
fn render_wraps_colours_when_markup_is_on() {
    let mut it = item_with_text(None);
    it.fg = Some(String::from("#000000"));
    it.bg = Some(String::from("#ffffff"));
    let mut b = bar_with(vec![], "|");
    b.status2d_color = true;
    let r = it.render(&b, Some(String::from("T")));
    assert_eq!(r, Some(String::from("^c#000000^^b#ffffff^T^d^")));
}

#[test]
fn render_resets_even_without_item_colours() {
    let it = item_with_text(None);
    let mut b = bar_with(vec![], "|");
    b.status2d_color = true;
    let r = it.render(&b, Some(String::from("T")));
    assert_eq!(r, Some(String::from("T^d^")));
}

#[test]
fn render_keeps_absence_absent() {
    let it = item_with_text(None);
    let b = bar_with(vec![], "|");
    assert_eq!(it.render(&b, None), None);
}

#[test]
fn kind_names_are_trimmed() {
    let mut it = item_with_text(None);
    it.name = String::from(" time ");
    assert_eq!(it.kind(), Kind::Time);
    it.name = String::from("memory");
    assert_eq!(it.kind(), Kind::Memory);
    it.name = String::from("battery_icon");
    assert_eq!(it.kind(), Kind::BatteryIcon);
    it.name = String::from("widget");
    assert_eq!(it.kind(), Kind::Unknown);
}
