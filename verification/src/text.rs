use vstd::prelude::*;
use vstd::string::StrSliceExecFns;
use vstd::string::StringExecFns;

verus! {

/// Whether a character carries the Unicode `White_Space` property.  The
/// property is a large table, so it is left uninterpreted here; the one
/// executable gateway to it is `is_space` below.
pub uninterp spec fn white_space(c: char) -> bool;

/// Relies on char::is_whitespace: true exactly for the characters with the
/// Unicode `White_Space` property; the result depends on the character alone.
#[verifier::external_body]
pub fn is_space(c: char) -> (r: bool)
    ensures
        r == white_space(c),
{
    c.is_whitespace()
}

/// The string with its leading white space removed.
pub open spec fn trim_start_spec(s: Seq<char>) -> Seq<char>
    decreases s.len(),
{
    if s.len() > 0 && white_space(s[0]) {
        trim_start_spec(s.skip(1))
    } else {
        s
    }
}

/// The string with its trailing white space removed.
pub open spec fn trim_end_spec(s: Seq<char>) -> Seq<char>
    decreases s.len(),
{
    if s.len() > 0 && white_space(s.last()) {
        trim_end_spec(s.drop_last())
    } else {
        s
    }
}

/// The string with leading and trailing white space removed.
pub open spec fn trim_spec(s: Seq<char>) -> Seq<char> {
    trim_end_spec(trim_start_spec(s))
}

proof fn lemma_trim_start_is_skip(s: Seq<char>, a: int)
    requires
        0 <= a <= s.len(),
        forall|i: int| 0 <= i < a ==> white_space(s[i]),
        a == s.len() || !white_space(s[a]),
    ensures
        trim_start_spec(s) == s.skip(a),
    decreases a,
{
    if a == 0 {
        assert(s.skip(0) =~= s);
    } else {
        lemma_trim_start_is_skip(s.skip(1), a - 1);
        assert(s.skip(1).skip(a - 1) =~= s.skip(a));
    }
}

proof fn lemma_trim_end_is_take(s: Seq<char>, b: int)
    requires
        0 <= b <= s.len(),
        forall|i: int| b <= i < s.len() ==> white_space(s[i]),
        b == 0 || !white_space(s[b - 1]),
    ensures
        trim_end_spec(s) == s.take(b),
    decreases s.len() - b,
{
    if b == s.len() {
        assert(s.take(b) =~= s);
    } else {
        assert(s.drop_last() =~= s.take(s.len() - 1));
        lemma_trim_end_is_take(s.take(s.len() - 1), b);
        assert(s.take(s.len() - 1).take(b) =~= s.take(b));
    }
}

/// Remove leading and trailing white space, as the scheduler does before
/// matching an item's kind name or parsing a numeric parameter.
pub fn trim(s: &str) -> (r: &str)
    ensures
        r@ == trim_spec(s@),
{
    let n = s.unicode_len();
    let mut a: usize = 0;
    while a < n && is_space(s.get_char(a))
        invariant
            0 <= a <= n,
            n == s@.len(),
            forall|i: int| 0 <= i < a ==> white_space(s@[i]),
        decreases n - a,
    {
        a += 1;
    }
    proof {
        lemma_trim_start_is_skip(s@, a as int);
    }
    if a == n {
        let r = s.substring_char(a, n);
        proof {
            assert(r@ =~= trim_spec(s@));
        }
        return r;
    }
    let mut b: usize = n;
    while b > a && is_space(s.get_char(b - 1))
        invariant
            a <= b <= n,
            n == s@.len(),
            forall|i: int| b <= i < n ==> white_space(s@[i]),
        decreases b,
    {
        b -= 1;
    }
    let r = s.substring_char(a, b);
    proof {
        let skipped = s@.skip(a as int);
        lemma_trim_end_is_take(skipped, b - a);
        assert(skipped.take(b - a) =~= s@.subrange(a as int, b as int));
        assert(r@ == trim_spec(s@));
    }
    r
}

/// Character-for-character string equality, used to match an item's kind
/// name against the known producer names.
pub fn str_eq(a: &str, b: &str) -> (r: bool)
    ensures
        r == (a@ == b@),
{
    let sa = String::from_str(a);
    let sb = String::from_str(b);
    sa == sb
}

} // verus!
