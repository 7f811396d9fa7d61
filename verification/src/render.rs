use vstd::prelude::*;
use vstd::string::StringExecFns;

use crate::model::Bar;
use crate::model::Item;
use crate::text;

verus! {

/// The producer kinds the bar knows how to drive.  A record whose kind name
/// matches none of them renders as absent and only leaves a diagnostic.
#[derive(Clone, Copy, Debug, PartialEq, Eq, Structural)]
pub enum Kind {
    Memory,
    Temp,
    Time,
    Exec,
    Battery,
    BatteryIcon,
    Echo,
    Unknown,
}

/// Which producer a (trimmed) kind name selects.
pub open spec fn kind_of(name: Seq<char>) -> Kind {
    if name == "memory"@ {
        Kind::Memory
    } else if name == "temp"@ {
        Kind::Temp
    } else if name == "time"@ {
        Kind::Time
    } else if name == "exec"@ {
        Kind::Exec
    } else if name == "battery"@ {
        Kind::Battery
    } else if name == "battery_icon"@ {
        Kind::BatteryIcon
    } else if name == "echo"@ {
        Kind::Echo
    } else {
        Kind::Unknown
    }
}

/// The foreground colour marker an item contributes when colour markup is on.
pub open spec fn fg_marker(item: Item) -> Seq<char> {
    match item.fg {
        Option::Some(c) => "^c"@ + c@ + "^"@,
        Option::None => Seq::empty(),
    }
}

/// The background colour marker an item contributes when colour markup is on.
pub open spec fn bg_marker(item: Item) -> Seq<char> {
    match item.bg {
        Option::Some(c) => "^b"@ + c@ + "^"@,
        Option::None => Seq::empty(),
    }
}

/// The item's own prefix, or the bar's default when the item has none.
pub open spec fn effective_prefix(item: Item, bar: Bar) -> Seq<char> {
    if item.prefix@.len() > 0 {
        item.prefix@
    } else {
        bar.prefix@
    }
}

/// The item's own suffix, or the bar's default when the item has none.
pub open spec fn effective_suffix(item: Item, bar: Bar) -> Seq<char> {
    if item.suffix@.len() > 0 {
        item.suffix@
    } else {
        bar.suffix@
    }
}

/// The decorated text stored for an item whose producer returned `raw`:
/// prefix and suffix around the raw text, and, when colour markup is on,
/// the item's colour markers in front and a reset marker behind.
pub open spec fn rendered_text(item: Item, bar: Bar, raw: Seq<char>) -> Seq<char> {
    let base = effective_prefix(item, bar) + raw + effective_suffix(item, bar);
    if bar.status2d_color {
        fg_marker(item) + bg_marker(item) + base + "^d^"@
    } else {
        base
    }
}

impl Item {
    /// The producer this record's kind name selects, after trimming.
    pub fn kind(&self) -> (k: Kind)
        ensures
            k == kind_of(text::trim_spec(self.name@)),
    {
        let t = text::trim(self.name.as_str());
        if text::str_eq(t, "memory") {
            Kind::Memory
        } else if text::str_eq(t, "temp") {
            Kind::Temp
        } else if text::str_eq(t, "time") {
            Kind::Time
        } else if text::str_eq(t, "exec") {
            Kind::Exec
        } else if text::str_eq(t, "battery") {
            Kind::Battery
        } else if text::str_eq(t, "battery_icon") {
            Kind::BatteryIcon
        } else if text::str_eq(t, "echo") {
            Kind::Echo
        } else {
            Kind::Unknown
        }
    }

    /// Decorate a producer's raw output for this record; a failed producer
    /// (`None`) stays absent.  Decoration happens here, while the item is
    /// recomputed, so the stored text already carries it when the composer
    /// runs.
    pub fn render(&self, bar: &Bar, raw: Option<String>) -> (r: Option<String>)
        ensures
            raw is None ==> r is None,
            raw matches Some(t) ==> (r matches Some(out) && out@ == rendered_text(
                *self,
                *bar,
                t@,
            )),
    {
        let t = match raw {
            Option::Some(t) => t,
            Option::None => {
                return None;
            },
        };
        let mut out = String::new();
        if bar.status2d_color {
            match &self.fg {
                Option::Some(c) => {
                    out.append("^c");
                    out.append(c.as_str());
                    out.append("^");
                },
                Option::None => {},
            }
            match &self.bg {
                Option::Some(c) => {
                    out.append("^b");
                    out.append(c.as_str());
                    out.append("^");
                },
                Option::None => {},
            }
        }
        if !self.prefix.as_str().is_empty() {
            out.append(self.prefix.as_str());
        } else {
            out.append(bar.prefix.as_str());
        }
        out.append(t.as_str());
        if !self.suffix.as_str().is_empty() {
            out.append(self.suffix.as_str());
        } else {
            out.append(bar.suffix.as_str());
        }
        if bar.status2d_color {
            out.append("^d^");
        }
        proof {
            assert(out@ =~= rendered_text(*self, *bar, t@));
        }
        Some(out)
    }
}

} // verus!
