use std::fmt::Write;
use vstd::prelude::*;
use vstd::string::StringExecFns;

use crate::compose;
use crate::model::Item;
use crate::num;
use crate::text;

verus! {

/// Relies on chrono::Local::now and chrono's strftime-style formatting:
/// the text depends on the wall clock, the time zone and the format
/// string, so nothing is claimed of it; a malformed format string yields
/// `None` instead of an error.
#[verifier::external_body]
fn format_local_now(fmt: &str) -> (r: Option<String>) {
    let now = chrono::Local::now();
    let mut s = String::new();
    match write!(&mut s, "{}", now.format(fmt)) {
        Ok(()) => Some(s),
        Err(_) => None,
    }
}

/// The clock producer's text: the local time, rendered with the first
/// parameter as format string, or with the built-in format when there is
/// none.  The text depends on the clock, so only the choice of format is
/// pinned here.
pub fn time_text(params: &Vec<String>) -> (r: Option<String>) {
    if params.len() >= 1 {
        format_local_now(params[0].as_str())
    } else {
        format_local_now("\u{ef}\u{201e}\u{b3} %Y-%m-%d %H:%M:%S")
    }
}

/// Which battery (or thermal zone) a producer's first parameter selects:
/// the parameter, trimmed and read as a decimal number, or 0 when there is
/// no parameter or it does not parse.
pub open spec fn index_of_params(params: Seq<Seq<char>>) -> int {
    if params.len() > 0 && num::valid_i32_numeral(text::trim_spec(params[0])) {
        num::numeral_val(text::trim_spec(params[0]))
    } else {
        0
    }
}

/// Select the battery or thermal zone a producer reads, from its
/// parameters.
pub fn device_index(params: &Vec<String>) -> (i: i32)
    ensures
        i as int == index_of_params(params.deep_view()),
{
    if params.len() == 0 {
        return 0;
    }
    let t = text::trim(params[0].as_str());
    proof {
        assert(params.deep_view()[0] == params@[0]@);
        assert(params.deep_view().len() == params@.len());
    }
    match num::parse_i32(t) {
        Option::Some(v) => v,
        Option::None => 0,
    }
}

/// The battery producer's text for the capacity file's contents: the
/// number the file holds, trimmed, re-rendered in decimal; absent when the
/// contents do not parse.
pub fn battery_text(content: &str) -> (r: Option<String>)
    ensures
        num::valid_i32_numeral(text::trim_spec(content@)) ==> (r matches Some(t) && t@
            == num::dec_int(num::numeral_val(text::trim_spec(content@)))),
        !num::valid_i32_numeral(text::trim_spec(content@)) ==> r is None,
{
    let t = text::trim(content);
    match num::parse_i32(t) {
        Option::Some(v) => Some(num::i64_to_string(v as i64)),
        Option::None => None,
    }
}

/// The battery icon producer's text for the status file's contents: one
/// glyph for "Not charging", another for everything else.
pub fn battery_icon_text(status: &str) -> (r: String)
    ensures
        status@ == "Not charging"@ ==> r@ == "\u{f240}"@,
        status@ != "Not charging"@ ==> r@ == "\u{f58c}"@,
{
    if text::str_eq(status, "Not charging") {
        String::from_str("\u{f240}")
    } else {
        String::from_str("\u{f58c}")
    }
}

/// Signed division rounding toward zero, as the thermal producer scales
/// millidegrees to degrees.
pub open spec fn div_toward_zero(v: int, d: int) -> int {
    if v >= 0 {
        v / d
    } else {
        -((-v) / d)
    }
}

/// The thermal producer's text for the zone file's contents: the number
/// the file holds, trimmed, scaled from millidegrees to whole degrees;
/// absent when the contents do not parse.
pub fn temp_text(content: &str) -> (r: Option<String>)
    ensures
        num::valid_i32_numeral(text::trim_spec(content@)) ==> (r matches Some(t) && t@
            == num::dec_int(
            div_toward_zero(num::numeral_val(text::trim_spec(content@)), 1000),
        )),
        !num::valid_i32_numeral(text::trim_spec(content@)) ==> r is None,
{
    let t = text::trim(content);
    let v = match num::parse_i32(t) {
        Option::Some(v) => v,
        Option::None => {
            return None;
        },
    };
    let negative = v < 0;
    let magnitude: u64 = if negative {
        (-(v as i64)) as u64
    } else {
        v as u64
    };
    let scaled = magnitude / 1000;
    let signed: i64 = if negative {
        -(scaled as i64)
    } else {
        scaled as i64
    };
    Some(num::i64_to_string(signed))
}

/// The memory producer's text for a used-memory reading in kilobytes:
/// the amount in gibibyte-scale units, to one decimal place, rounded to
/// the nearest tenth.
pub open spec fn memory_text_spec(kb: int) -> Seq<char> {
    let tenths = (kb + 50000) / 100000;
    num::dec_digits(tenths / 10) + seq!['.'] + seq![num::digit_char(tenths % 10)] + " Gi"@
}

/// Render a used-memory reading, given in kilobytes, for the bar.
pub fn memory_text(used_kb: u64) -> (r: String)
    requires
        used_kb + 50000 <= u64::MAX,
    ensures
        r@ == memory_text_spec(used_kb as int),
{
    let tenths = (used_kb + 50000) / 100000;
    let whole = num::u64_to_string(tenths / 10);
    let rest = num::digit_to_str(tenths % 10);
    proof {
        reveal_strlit(".");
    }
    let r = whole.concat(".").concat(rest).concat(" Gi");
    proof {
        assert(r@ =~= memory_text_spec(used_kb as int));
    }
    r
}

impl Item {
    /// The echo producer's text: the parameters, joined with single
    /// spaces.  It is the one producer that needs nothing from outside the
    /// bar's own state.
    pub fn echo_text(&self) -> (r: String)
        ensures
            r@ == compose::join_with(self.params.deep_view(), " "@),
    {
        compose::join_all(&self.params, " ")
    }
}

} // verus!
