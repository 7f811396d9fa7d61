use vstd::prelude::*;
use vstd::string::StrSliceExecFns;
use vstd::string::StringExecFns;

verus! {

pub open spec fn is_digit(c: char) -> bool {
    '0' <= c && c <= '9'
}

pub open spec fn digit_val(c: char) -> int {
    c as int - '0' as int
}

pub open spec fn all_digits(s: Seq<char>) -> bool {
    forall|i: int| 0 <= i < s.len() ==> is_digit(s[i])
}

/// The integer a digit string denotes, most significant digit first.
pub open spec fn digits_val(s: Seq<char>) -> int
    decreases s.len(),
{
    if s.len() == 0 {
        0
    } else {
        digits_val(s.drop_last()) * 10 + digit_val(s.last())
    }
}

/// The digit body of a decimal numeral: everything after an optional
/// leading sign.
pub open spec fn numeral_body(s: Seq<char>) -> Seq<char> {
    if s.len() > 0 && (s[0] == '+' || s[0] == '-') {
        s.skip(1)
    } else {
        s
    }
}

/// The integer a decimal numeral denotes: an optional sign, then digits.
pub open spec fn numeral_val(s: Seq<char>) -> int {
    if s.len() > 0 && s[0] == '-' {
        -digits_val(numeral_body(s))
    } else {
        digits_val(numeral_body(s))
    }
}

/// A well-formed decimal numeral for a 32-bit signed integer: an optional
/// sign, at least one digit, nothing else, and a value in range.
pub open spec fn valid_i32_numeral(s: Seq<char>) -> bool {
    &&& numeral_body(s).len() > 0
    &&& all_digits(numeral_body(s))
    &&& i32::MIN <= numeral_val(s) <= i32::MAX
}

proof fn lemma_digits_val_nonneg(s: Seq<char>)
    requires
        all_digits(s),
    ensures
        digits_val(s) >= 0,
    decreases s.len(),
{
    if s.len() > 0 {
        assert(all_digits(s.drop_last()));
        lemma_digits_val_nonneg(s.drop_last());
    }
}

proof fn lemma_digits_val_take_bound(s: Seq<char>, k: int)
    requires
        all_digits(s),
        0 <= k <= s.len(),
    ensures
        digits_val(s) >= digits_val(s.take(k)),
    decreases s.len(),
{
    if k < s.len() {
        assert(all_digits(s.drop_last()));
        assert(s.drop_last().take(k) =~= s.take(k));
        lemma_digits_val_take_bound(s.drop_last(), k);
        lemma_digits_val_nonneg(s.drop_last());
        assert(digits_val(s) >= digits_val(s.drop_last()));
    } else {
        assert(s.take(k) =~= s);
    }
}

/// Parse a decimal numeral, exactly accepting the well-formed in-range
/// numerals and nothing else.
pub fn parse_i32(s: &str) -> (r: Option<i32>)
    ensures
        valid_i32_numeral(s@) ==> r == Some(numeral_val(s@) as i32),
        !valid_i32_numeral(s@) ==> r is None,
{
    let n = s.unicode_len();
    let mut idx: usize = 0;
    let mut negative = false;
    if n > 0 {
        let c0 = s.get_char(0);
        if c0 == '+' {
            idx = 1;
        } else if c0 == '-' {
            idx = 1;
            negative = true;
        }
    }
    let ghost body = numeral_body(s@);
    proof {
        assert(body =~= s@.skip(idx as int));
    }
    if idx == n {
        // no digits at all
        return None;
    }
    let mut acc: i64 = 0;
    let mut k: usize = idx;
    while k < n
        invariant
            idx <= k <= n,
            n == s@.len(),
            body == numeral_body(s@),
            body == s@.skip(idx as int),
            0 <= acc <= 0xffff_ffffi64,
            acc == digits_val(body.take(k - idx)),
            all_digits(body.take(k - idx)),
        decreases n - k,
    {
        let c = s.get_char(k);
        if !('0' <= c && c <= '9') {
            proof {
                assert(body[k - idx] == c);
                assert(!all_digits(body));
            }
            return None;
        }
        let d: i64 = (c as u32 as i64) - ('0' as u32 as i64);
        acc = acc * 10 + d;
        proof {
            let t = body.take(k - idx + 1);
            assert(t.drop_last() =~= body.take(k - idx));
            assert(t.last() == c);
        }
        k += 1;
        if acc > 0xffff_ffffi64 {
            // the value can no longer fit in 32 bits, whatever follows
            proof {
                if valid_i32_numeral(s@) {
                    lemma_digits_val_take_bound(body, k - idx);
                    assert(digits_val(body) >= acc);
                    assert(false);
                }
            }
            return None;
        }
    }
    proof {
        assert(body.take(n - idx) =~= body);
    }
    if negative {
        if acc > 2147483648i64 {
            return None;
        }
        proof {
            assert(s@[0] == '-');
        }
        Some((-acc) as i32)
    } else {
        if acc > 2147483647i64 {
            return None;
        }
        Some(acc as i32)
    }
}

pub open spec fn digit_char(d: int) -> char {
    if d == 0 {
        '0'
    } else if d == 1 {
        '1'
    } else if d == 2 {
        '2'
    } else if d == 3 {
        '3'
    } else if d == 4 {
        '4'
    } else if d == 5 {
        '5'
    } else if d == 6 {
        '6'
    } else if d == 7 {
        '7'
    } else if d == 8 {
        '8'
    } else {
        '9'
    }
}

/// The decimal numeral of a non-negative integer, no sign and no leading
/// zeros (`0` itself is "0").
pub open spec fn dec_digits(n: int) -> Seq<char>
    decreases n,
{
    if n < 10 {
        seq![digit_char(n)]
    } else {
        dec_digits(n / 10).push(digit_char(n % 10))
    }
}

/// The decimal numeral of a signed integer.
pub open spec fn dec_int(n: int) -> Seq<char> {
    if n < 0 {
        seq!['-'] + dec_digits(-n)
    } else {
        dec_digits(n)
    }
}

/// The one-character numeral of a single digit.
pub fn digit_to_str(d: u64) -> (r: &'static str)
    requires
        d < 10,
    ensures
        r@ == seq![digit_char(d as int)],
{
    proof {
        reveal_strlit("0");
        reveal_strlit("1");
        reveal_strlit("2");
        reveal_strlit("3");
        reveal_strlit("4");
        reveal_strlit("5");
        reveal_strlit("6");
        reveal_strlit("7");
        reveal_strlit("8");
        reveal_strlit("9");
    }
    let r = if d == 0 {
        "0"
    } else if d == 1 {
        "1"
    } else if d == 2 {
        "2"
    } else if d == 3 {
        "3"
    } else if d == 4 {
        "4"
    } else if d == 5 {
        "5"
    } else if d == 6 {
        "6"
    } else if d == 7 {
        "7"
    } else if d == 8 {
        "8"
    } else {
        "9"
    };
    proof {
        assert(r@ =~= seq![digit_char(d as int)]);
    }
    r
}

/// Format an unsigned integer as its decimal numeral.
pub fn u64_to_string(n: u64) -> (r: String)
    ensures
        r@ == dec_digits(n as int),
{
    let mut out = String::new();
    let mut m = n;
    if m == 0 {
        let r = String::from_str(digit_to_str(0));
        return r;
    }
    proof {
        assert(dec_digits(n as int) =~= dec_digits(n as int) + Seq::<char>::empty());
    }
    while m > 0
        invariant
            if m > 0 {
                dec_digits(n as int) == dec_digits(m as int) + out@
            } else {
                dec_digits(n as int) == out@ && out@.len() > 0
            },
        decreases m,
    {
        let d = m % 10;
        let ghost out0 = out@;
        let piece = String::from_str(digit_to_str(d));
        let joined = piece.concat(out.as_str());
        out = joined;
        proof {
            assert(out@ == seq![digit_char(d as int)] + out0);
            if m >= 10 {
                assert(dec_digits(m as int) == dec_digits(m as int / 10).push(
                    digit_char(m as int % 10),
                ));
                assert(dec_digits(m as int / 10).push(digit_char(m as int % 10)) =~= dec_digits(
                    m as int / 10,
                ) + seq![digit_char(d as int)]);
                assert(dec_digits(n as int) =~= dec_digits((m / 10) as int) + out@);
            } else {
                assert(dec_digits(m as int) =~= seq![digit_char(d as int)]);
                assert(dec_digits(n as int) =~= out@);
            }
        }
        m = m / 10;
    }
    out
}

/// Format a signed integer as its decimal numeral.
pub fn i64_to_string(n: i64) -> (r: String)
    ensures
        r@ == dec_int(n as int),
{
    if n < 0 {
        let mag: u64 = if n == i64::MIN {
            9223372036854775808u64
        } else {
            (-n) as u64
        };
        let digits = u64_to_string(mag);
        let sign = String::from_str("-");
        proof {
            reveal_strlit("-");
        }
        let r = sign.concat(digits.as_str());
        proof {
            assert(r@ =~= dec_int(n as int));
        }
        r
    } else {
        u64_to_string(n as u64)
    }
}

} // verus!
