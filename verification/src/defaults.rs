use vstd::prelude::*;
use vstd::string::StringExecFns;

verus! {

use crate::model::Bar;
use crate::model::Item;

/// The built-in configuration the bar starts from when no configuration
/// file can be read: a volume readout refreshed by trigger 46, battery and
/// memory readouts on slow intervals, and a clock refreshed every tick,
/// joined with "|" and wrapped in single spaces, with colour markup on.
pub fn default_bar() -> (bar: Bar)
    ensures
        bar.list@.len() == 4,
        bar.list@[0].name@ == "exec"@,
        bar.list@[0].params.deep_view() == seq!["pamixer"@, "--get-volume-human"@],
        bar.list@[0].signal == 46,
        bar.list@[0].interval == 0,
        bar.list@[0].bg is None,
        bar.list@[0].fg is None,
        bar.list@[0].str is None,
        bar.list@[0].prefix@ == "\u{f886} "@,
        bar.list@[0].suffix@ == ""@,
        bar.list@[1].name@ == "battery"@,
        bar.list@[1].params.deep_view() == Seq::<Seq<char>>::empty(),
        bar.list@[1].signal == 0,
        bar.list@[1].interval == 30,
        bar.list@[1].bg is None,
        bar.list@[1].fg is None,
        bar.list@[1].str is None,
        bar.list@[1].prefix@ == ""@,
        bar.list@[1].suffix@ == ""@,
        bar.list@[2].name@ == "memory"@,
        bar.list@[2].params.deep_view() == Seq::<Seq<char>>::empty(),
        bar.list@[2].signal == 0,
        bar.list@[2].interval == 10,
        bar.list@[2].bg is None,
        bar.list@[2].fg is None,
        bar.list@[2].str is None,
        bar.list@[2].prefix@ == ""@,
        bar.list@[2].suffix@ == ""@,
        bar.list@[3].name@ == "time"@,
        bar.list@[3].params.deep_view() == seq!["\u{f133} %Y-%m-%d %I:%M:%S"@],
        bar.list@[3].signal == 0,
        bar.list@[3].interval == 1,
        bar.list@[3].bg matches Some(c) && c@ == "#ffffff"@,
        bar.list@[3].fg matches Some(c) && c@ == "#000000"@,
        bar.list@[3].str is None,
        bar.list@[3].prefix@ == ""@,
        bar.list@[3].suffix@ == ""@,
        bar.sep@ == "|"@,
        bar.status2d_color == true,
        bar.counter == 0,
        bar.prefix@ == " "@,
        bar.suffix@ == " "@,
{
    let mut exec_params: Vec<String> = Vec::new();
    exec_params.push(String::from_str("pamixer"));
    exec_params.push(String::from_str("--get-volume-human"));
    proof {
        assert(exec_params.deep_view() =~= seq!["pamixer"@, "--get-volume-human"@]);
    }
    let volume = Item {
        name: String::from_str("exec"),
        params: exec_params,
        signal: 46,
        interval: 0,
        bg: None,
        fg: None,
        str: None,
        prefix: String::from_str("\u{f886} "),
        suffix: String::from_str(""),
    };
    let battery_params: Vec<String> = Vec::new();
    let memory_params: Vec<String> = Vec::new();
    proof {
        assert(battery_params.deep_view() =~= Seq::<Seq<char>>::empty());
        assert(memory_params.deep_view() =~= Seq::<Seq<char>>::empty());
    }
    let battery = Item {
        name: String::from_str("battery"),
        params: battery_params,
        signal: 0,
        interval: 30,
        bg: None,
        fg: None,
        str: None,
        prefix: String::from_str(""),
        suffix: String::from_str(""),
    };
    let memory = Item {
        name: String::from_str("memory"),
        params: memory_params,
        signal: 0,
        interval: 10,
        bg: None,
        fg: None,
        str: None,
        prefix: String::from_str(""),
        suffix: String::from_str(""),
    };
    let mut clock_params: Vec<String> = Vec::new();
    clock_params.push(String::from_str("\u{f133} %Y-%m-%d %I:%M:%S"));
    proof {
        assert(clock_params.deep_view() =~= seq!["\u{f133} %Y-%m-%d %I:%M:%S"@]);
    }
    let clock = Item {
        name: String::from_str("time"),
        params: clock_params,
        signal: 0,
        interval: 1,
        bg: Some(String::from_str("#ffffff")),
        fg: Some(String::from_str("#000000")),
        str: None,
        prefix: String::from_str(""),
        suffix: String::from_str(""),
    };
    let mut list: Vec<Item> = Vec::new();
    list.push(volume);
    list.push(battery);
    list.push(memory);
    list.push(clock);
    proof {
        assert(list@.len() == 4);
        assert(list@[0] == volume && list@[1] == battery && list@[2] == memory && list@[3]
            == clock);
    }
    Bar {
        list,
        sep: String::from_str("|"),
        status2d_color: true,
        counter: 0,
        prefix: String::from_str(" "),
        suffix: String::from_str(" "),
    }
}

} // verus!
