use vstd::prelude::*;
use vstd::string::StrSliceExecFns;
use vstd::string::StringExecFns;

use crate::model::Bar;
use crate::model::Item;

verus! {

/// The rendered texts the composer includes: each item's stored text, in
/// display order, with absent items skipped entirely.
pub open spec fn texts_of(items: Seq<Item>) -> Seq<Seq<char>>
    decreases items.len(),
{
    if items.len() == 0 {
        Seq::empty()
    } else {
        let rest = texts_of(items.drop_last());
        match items.last().str {
            Option::Some(t) => rest.push(t@),
            Option::None => rest,
        }
    }
}

/// The parts joined with the separator between every two of them.
pub open spec fn join_with(parts: Seq<Seq<char>>, sep: Seq<char>) -> Seq<char>
    decreases parts.len(),
{
    if parts.len() == 0 {
        Seq::empty()
    } else if parts.len() == 1 {
        parts[0]
    } else {
        join_with(parts.drop_last(), sep) + sep + parts.last()
    }
}

/// The whole bar as one line: the present texts, joined with the separator.
pub open spec fn compose_spec(bar: Bar) -> Seq<char> {
    join_with(texts_of(bar.list@), bar.sep@)
}

/// Join every string in `v` with `sep` between each pair.
pub fn join_all(v: &Vec<String>, sep: &str) -> (r: String)
    ensures
        r@ == join_with(v.deep_view(), sep@),
{
    let mut out = String::new();
    let mut i: usize = 0;
    proof {
        assert(v.deep_view().take(0) =~= Seq::<Seq<char>>::empty());
    }
    while i < v.len()
        invariant
            0 <= i <= v@.len(),
            v.deep_view().len() == v@.len(),
            forall|j: int| 0 <= j < v@.len() ==> v.deep_view()[j] == v@[j]@,
            out@ == join_with(v.deep_view().take(i as int), sep@),
        decreases v@.len() - i,
    {
        if i > 0 {
            out.append(sep);
        }
        out.append(v[i].as_str());
        proof {
            let parts = v.deep_view().take(i as int);
            let grown = v.deep_view().take(i as int + 1);
            assert(grown.drop_last() =~= parts);
            assert(grown.last() == v@[i as int]@);
            if i == 0 {
                assert(out@ =~= join_with(grown, sep@));
            }
        }
        i += 1;
    }
    proof {
        assert(v.deep_view().take(v@.len() as int) =~= v.deep_view());
    }
    out
}

/// Compose the published line from the current bar state: a pure function
/// of the state, with no side effect.
pub fn compose(bar: &Bar) -> (r: String)
    ensures
        r@ == compose_spec(*bar),
{
    let mut out = String::new();
    let mut any = false;
    let mut i: usize = 0;
    proof {
        assert(bar.list@.take(0) =~= Seq::<Item>::empty());
    }
    while i < bar.list.len()
        invariant
            0 <= i <= bar.list@.len(),
            any <==> texts_of(bar.list@.take(i as int)).len() > 0,
            out@ == join_with(texts_of(bar.list@.take(i as int)), bar.sep@),
        decreases bar.list@.len() - i,
    {
        proof {
            assert(bar.list@.take(i as int + 1).drop_last() =~= bar.list@.take(i as int));
            assert(bar.list@.take(i as int + 1).last() == bar.list@[i as int]);
        }
        match &bar.list[i].str {
            Option::Some(t) => {
                if any {
                    out.append(bar.sep.as_str());
                }
                out.append(t.as_str());
                proof {
                    let parts = texts_of(bar.list@.take(i as int));
                    let grown = texts_of(bar.list@.take(i as int + 1));
                    assert(grown.drop_last() =~= parts);
                    assert(grown.last() == t@);
                    if !any {
                        assert(out@ =~= join_with(grown, bar.sep@));
                    }
                }
                any = true;
            },
            Option::None => {},
        }
        i += 1;
    }
    proof {
        assert(bar.list@.take(bar.list@.len() as int) =~= bar.list@);
    }
    out
}

/// Whether the composed line holds an interior NUL character, which the
/// display sink cannot publish.
pub fn has_nul(s: &str) -> (r: bool)
    ensures
        r == (exists|i: int| 0 <= i < s@.len() && s@[i] == '\0'),
{
    let n = s.unicode_len();
    let mut i: usize = 0;
    while i < n
        invariant
            0 <= i <= n,
            n == s@.len(),
            forall|j: int| 0 <= j < i ==> s@[j] != '\0',
        decreases n - i,
    {
        if s.get_char(i) == '\0' {
            return true;
        }
        i += 1;
    }
    false
}

} // verus!
