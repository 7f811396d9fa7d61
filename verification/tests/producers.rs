use sbar::defaults::default_bar;
use sbar::num::i64_to_string;
use sbar::num::parse_i32;
use sbar::num::u64_to_string;
use sbar::produce::battery_icon_text;
use sbar::produce::battery_text;
use sbar::produce::device_index;
use sbar::produce::memory_text;
use sbar::produce::temp_text;
use sbar::produce::time_text;
use sbar::text::trim;
use sbar::Item;

#[test]
fn trim_removes_surrounding_white_space() {
    assert_eq!(trim("  a b\t\n"), "a b");
    assert_eq!(trim(""), "");
    assert_eq!(trim(" \t "), "");
    assert_eq!(trim("plain"), "plain");
}

#[test]
fn parse_accepts_exactly_in_range_numerals() {
    assert_eq!(parse_i32("42"), Some(42));
    assert_eq!(parse_i32("+5"), Some(5));
    assert_eq!(parse_i32("-7"), Some(-7));
    assert_eq!(parse_i32("007"), Some(7));
    assert_eq!(parse_i32("2147483647"), Some(i32::MAX));
    assert_eq!(parse_i32("-2147483648"), Some(i32::MIN));
    assert_eq!(parse_i32("2147483648"), None);
    assert_eq!(parse_i32("-2147483649"), None);
    assert_eq!(parse_i32(""), None);
    assert_eq!(parse_i32("+"), None);
    assert_eq!(parse_i32("12a"), None);
    assert_eq!(parse_i32(" 5"), None);
}

#[test]
fn integers_format_in_decimal() {
    assert_eq!(u64_to_string(0), "0");
    assert_eq!(u64_to_string(7), "7");
    assert_eq!(u64_to_string(10), "10");
    assert_eq!(u64_to_string(u64::MAX), "18446744073709551615");
    assert_eq!(i64_to_string(-13), "-13");
    assert_eq!(i64_to_string(0), "0");
    assert_eq!(i64_to_string(i64::MIN), "-9223372036854775808");
}

#[test]
fn device_index_reads_the_first_parameter() {
    assert_eq!(device_index(&Vec::new()), 0);
    assert_eq!(device_index(&vec![String::from("1")]), 1);
    assert_eq!(device_index(&vec![String::from(" 2 ")]), 2);
    assert_eq!(device_index(&vec![String::from("x")]), 0);
}

#[test]
fn battery_renders_the_capacity_number() {
    assert_eq!(battery_text("100\n"), Some(String::from("100")));
    assert_eq!(battery_text(" 57 "), Some(String::from("57")));
    assert_eq!(battery_text("abc"), None);
    assert_eq!(battery_text(""), None);
}

#[test]
fn battery_icon_follows_the_status() {
    assert_eq!(battery_icon_text("Not charging"), "\u{f240}");
    assert_eq!(battery_icon_text("Charging\n"), "\u{f58c}");
    assert_eq!(battery_icon_text(""), "\u{f58c}");
}

#[test]
fn temperature_scales_millidegrees() {
    assert_eq!(temp_text("45231\n"), Some(String::from("45")));
    assert_eq!(temp_text("-5500"), Some(String::from("-5")));
    assert_eq!(temp_text("999"), Some(String::from("0")));
    assert_eq!(temp_text("bad"), None);
}

#[test]
fn memory_renders_tenths_of_gigabytes() {
    assert_eq!(memory_text(16384000), "16.4 Gi");
    assert_eq!(memory_text(0), "0.0 Gi");
    assert_eq!(memory_text(123456), "0.1 Gi");
    assert_eq!(memory_text(950000), "1.0 Gi");
}

#[test]
fn echo_joins_its_parameters() {
    let it = Item {
        name: String::from("echo"),
        params: vec![String::from("hello"), String::from("world")],
        signal: 0,
        interval: 0,
        bg: None,
        fg: None,
        str: None,
        prefix: String::new(),
        suffix: String::new(),
    };
    assert_eq!(it.echo_text(), "hello world");
    let mut empty = it;
    empty.params = Vec::new();
    assert_eq!(empty.echo_text(), "");
}

#[test]
fn clock_produces_text_for_a_sound_format() {
    let text = time_text(&vec![String::from("%Y")]).expect("the clock should render");
    assert_eq!(text.len(), 4);
    assert!(text.chars().all(|c| c.is_ascii_digit()));
    assert!(time_text(&Vec::new()).is_some());
}

#[test]
fn clock_reports_a_malformed_format_as_absence() {
    assert_eq!(time_text(&vec![String::from("%!")]), None);
}

#[test]
fn default_configuration_matches_the_built_in() {
    let bar = default_bar();
    assert_eq!(bar.sep, "|");
    assert!(bar.status2d_color);
    assert_eq!(bar.counter, 0);
    assert_eq!(bar.prefix, " ");
    assert_eq!(bar.suffix, " ");
    assert_eq!(bar.list.len(), 4);
    assert_eq!(bar.list[0].name, "exec");
    assert_eq!(
        bar.list[0].params,
        vec![String::from("pamixer"), String::from("--get-volume-human")]
    );
    assert_eq!(bar.list[0].signal, 46);
    assert_eq!(bar.list[0].interval, 0);
    assert_eq!(bar.list[0].prefix, "\u{f886} ");
    assert_eq!(bar.list[1].name, "battery");
    assert_eq!(bar.list[1].interval, 30);
    assert_eq!(bar.list[2].name, "memory");
    assert_eq!(bar.list[2].interval, 10);
    assert_eq!(bar.list[3].name, "time");
    assert_eq!(bar.list[3].interval, 1);
    assert_eq!(bar.list[3].params, vec![String::from("\u{f133} %Y-%m-%d %I:%M:%S")]);
    assert_eq!(bar.list[3].fg, Some(String::from("#000000")));
    assert_eq!(bar.list[3].bg, Some(String::from("#ffffff")));
    for it in &bar.list {
        assert_eq!(it.str, None);
    }
}
