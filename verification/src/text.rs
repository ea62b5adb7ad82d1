//! Small text clean-up used when scraped fragments are assembled into a
//! post: trimming surrounding whitespace, joining author lists, and removal
//! of the non-breaking-space entity that markup leaves in excerpts.

use vstd::prelude::*;
use vstd::string::{StringExecFns, StrSliceExecFns};

verus! {

/// The whitespace characters trimmed from scraped fragments.
pub open spec fn is_space(c: char) -> bool {
    c == ' ' || c == '\t' || c == '\n' || c == '\r'
}

/// The first position at or past `i` holding no whitespace.
pub open spec fn leading_spaces(s: Seq<char>, i: int) -> int
    decreases s.len() - i,
{
    if 0 <= i < s.len() && is_space(s[i]) {
        leading_spaces(s, i + 1)
    } else {
        i
    }
}

/// The position before `j` after which only whitespace follows.
pub open spec fn trailing_spaces(s: Seq<char>, j: int) -> int
    decreases j,
{
    if 0 < j <= s.len() && is_space(s[j - 1]) {
        trailing_spaces(s, j - 1)
    } else {
        j
    }
}

/// The text without leading and trailing whitespace.
pub open spec fn spec_trim(s: Seq<char>) -> Seq<char> {
    let a = leading_spaces(s, 0);
    let b = trailing_spaces(s, s.len() as int);
    if a <= b {
        s.subrange(a, b)
    } else {
        Seq::empty()
    }
}

fn space_char(c: char) -> (r: bool)
    ensures
        r == is_space(c),
{
    c == ' ' || c == '\t' || c == '\n' || c == '\r'
}

/// Trims surrounding whitespace from a fragment.
pub fn trim(s: &str) -> (r: &str)
    ensures
        r@ == spec_trim(s@),
{
    let n = s.unicode_len();
    let mut a: usize = 0;
    while a < n && space_char(s.get_char(a))
        invariant
            a <= n,
            n == s@.len(),
            leading_spaces(s@, 0) == leading_spaces(s@, a as int),
        decreases n - a,
    {
        a += 1;
    }
    let mut b: usize = n;
    while b > 0 && space_char(s.get_char(b - 1))
        invariant
            b <= n,
            n == s@.len(),
            trailing_spaces(s@, n as int) == trailing_spaces(s@, b as int),
        decreases b,
    {
        b -= 1;
    }
    if a <= b {
        s.substring_char(a, b)
    } else {
        proof {
            reveal_strlit("");
            assert(""@ =~= Seq::<char>::empty());
        }
        ""
    }
}

/// The items joined with the separator between each pair.
pub open spec fn spec_join(items: Seq<Seq<char>>, sep: Seq<char>) -> Seq<char>
    decreases items.len(),
{
    if items.len() == 0 {
        Seq::empty()
    } else if items.len() == 1 {
        items[0]
    } else {
        spec_join(items.drop_last(), sep) + sep + items.last()
    }
}

/// Joins the items with the separator.
pub fn join_with(items: &Vec<String>, sep: &str) -> (r: String)
    ensures
        r@ == spec_join(items@.map_values(|s: String| s@), sep@),
{
    let ghost views = items@.map_values(|s: String| s@);
    let mut out = String::new();
    let mut i: usize = 0;
    proof {
        assert(views.take(0) =~= Seq::<Seq<char>>::empty());
    }
    while i < items.len()
        invariant
            i <= items@.len(),
            views == items@.map_values(|s: String| s@),
            out@ == spec_join(views.take(i as int), sep@),
        decreases items@.len() - i,
    {
        if i > 0 {
            out.append(sep);
        }
        out.append(items[i].as_str());
        proof {
            let t = views.take(i + 1);
            assert(t.drop_last() =~= views.take(i as int));
            assert(t.last() == views[i as int]);
            assert(out@ =~= spec_join(t, sep@));
        }
        i += 1;
    }
    proof {
        assert(views.take(views.len() as int) =~= views);
    }
    out
}

/// The non-breaking-space entity.
pub open spec fn nbsp_entity() -> Seq<char> {
    seq!['&', 'n', 'b', 's', 'p', ';']
}

/// The text with every occurrence of the non-breaking-space entity removed,
/// scanning left to right.
pub open spec fn spec_remove_nbsp(s: Seq<char>) -> Seq<char>
    decreases s.len(),
{
    if s.len() == 0 {
        s
    } else if s.len() >= 6 && s.subrange(0, 6) == nbsp_entity() {
        spec_remove_nbsp(s.skip(6))
    } else {
        seq![s[0]] + spec_remove_nbsp(s.skip(1))
    }
}

fn nbsp_at(s: &str, i: usize) -> (r: bool)
    requires
        i + 6 <= s@.len(),
        i + 6 <= usize::MAX,
    ensures
        r == (s@.subrange(i as int, i + 6) == nbsp_entity()),
{
    let r = s.get_char(i) == '&' && s.get_char(i + 1) == 'n' && s.get_char(i + 2) == 'b'
        && s.get_char(i + 3) == 's' && s.get_char(i + 4) == 'p' && s.get_char(i + 5) == ';';
    proof {
        let w = s@.subrange(i as int, i + 6);
        assert(w.len() == 6);
        assert(w[0] == s@[i as int] && w[1] == s@[i + 1] && w[2] == s@[i + 2] && w[3] == s@[i + 3]
            && w[4] == s@[i + 4] && w[5] == s@[i + 5]);
        if r {
            assert(w =~= nbsp_entity());
        } else {
            assert(w != nbsp_entity());
        }
    }
    r
}

/// Removes every occurrence of the non-breaking-space entity.
pub fn remove_nbsp(s: &str) -> (r: String)
    ensures
        r@ == spec_remove_nbsp(s@),
{
    let n = s.unicode_len();
    let mut out = String::new();
    let mut cur: usize = 0;
    proof {
        assert(s@.skip(0) =~= s@);
        assert(Seq::<char>::empty() + spec_remove_nbsp(s@) =~= spec_remove_nbsp(s@));
    }
    while cur < n
        invariant
            cur <= n,
            n == s@.len(),
            spec_remove_nbsp(s@) == out@ + spec_remove_nbsp(s@.skip(cur as int)),
        decreases n - cur,
    {
        let ghost rest = s@.skip(cur as int);
        if n - cur >= 6 && nbsp_at(s, cur) {
            proof {
                assert(rest.subrange(0, 6) =~= s@.subrange(cur as int, cur + 6));
                assert(rest.skip(6) =~= s@.skip(cur + 6));
                assert(spec_remove_nbsp(rest) == spec_remove_nbsp(s@.skip(cur + 6)));
            }
            cur += 6;
        } else {
            let ghost out_before = out@;
            let piece = s.substring_char(cur, cur + 1);
            out.append(piece);
            proof {
                assert(rest.len() > 0);
                if rest.len() >= 6 {
                    assert(rest.subrange(0, 6) =~= s@.subrange(cur as int, cur + 6));
                }
                assert(rest[0] == s@[cur as int]);
                assert(rest.skip(1) =~= s@.skip(cur + 1));
                assert(piece@ =~= seq![s@[cur as int]]);
                assert(spec_remove_nbsp(rest) == seq![s@[cur as int]] + spec_remove_nbsp(
                    s@.skip(cur + 1),
                ));
                assert(out_before + (seq![s@[cur as int]] + spec_remove_nbsp(s@.skip(cur + 1)))
                    =~= out@ + spec_remove_nbsp(s@.skip(cur + 1)));
            }
            cur += 1;
        }
    }
    proof {
        assert(s@.skip(n as int) =~= Seq::<char>::empty());
        assert(out@ + Seq::<char>::empty() =~= out@);
    }
    out
}

} // verus!
