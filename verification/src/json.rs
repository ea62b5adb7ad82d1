//! A reader for flat JSON objects: one object whose members are strings
//! (with the simple escapes), unsigned integers, booleans or null. This is
//! the shape of the token records and token payloads the platform APIs
//! return; nested values are not part of those records and are rejected.

use vstd::prelude::*;
use vstd::string::{StringSliceAdditionalSpecFns, StrSliceExecFns};

use crate::util::{bytes_eq, find_key};

verus! {

/// A member value of a flat object.
pub enum JsonValue {
    Str(Vec<u8>),
    UInt(u64),
    Bool(bool),
    Null,
}

/// The mathematical shape of a member value.
pub ghost enum JsonView {
    Str(Seq<u8>),
    UInt(u64),
    Bool(bool),
    Null,
}

impl View for JsonValue {
    type V = JsonView;

    open spec fn view(&self) -> JsonView {
        match self {
            JsonValue::Str(v) => JsonView::Str(v@),
            JsonValue::UInt(n) => JsonView::UInt(*n),
            JsonValue::Bool(b) => JsonView::Bool(*b),
            JsonValue::Null => JsonView::Null,
        }
    }
}

pub open spec fn is_ws(b: u8) -> bool {
    b == 0x20u8 || b == 0x09u8 || b == 0x0au8 || b == 0x0du8
}

pub open spec fn is_digit(b: u8) -> bool {
    0x30u8 <= b <= 0x39u8
}

/// The first position at or past `i` that holds no whitespace.
pub open spec fn skip_ws(s: Seq<u8>, i: int) -> int
    decreases s.len() - i,
{
    if 0 <= i < s.len() && is_ws(s[i]) {
        skip_ws(s, i + 1)
    } else {
        i
    }
}

fn ws_end(s: &[u8], i: usize) -> (r: usize)
    requires
        i <= s@.len(),
    ensures
        r as int == skip_ws(s@, i as int),
        i <= r <= s@.len(),
{
    let mut j = i;
    while j < s.len() && (s[j] == 0x20u8 || s[j] == 0x09u8 || s[j] == 0x0au8 || s[j] == 0x0du8)
        invariant
            i <= j <= s@.len(),
            skip_ws(s@, i as int) == skip_ws(s@, j as int),
        decreases s@.len() - j,
    {
        j += 1;
    }
    j
}

/// What a backslash escape stands for.
pub open spec fn unescape(b: u8) -> Option<u8> {
    if b == 0x22u8 {
        Some(0x22u8)
    } else if b == 0x5cu8 {
        Some(0x5cu8)
    } else if b == 0x2fu8 {
        Some(0x2fu8)
    } else if b == 0x62u8 {
        Some(0x08u8)
    } else if b == 0x66u8 {
        Some(0x0cu8)
    } else if b == 0x6eu8 {
        Some(0x0au8)
    } else if b == 0x72u8 {
        Some(0x0du8)
    } else if b == 0x74u8 {
        Some(0x09u8)
    } else {
        None
    }
}

fn unescape_exec(b: u8) -> (r: Option<u8>)
    ensures
        r == unescape(b),
{
    if b == 0x22u8 {
        Some(0x22u8)
    } else if b == 0x5cu8 {
        Some(0x5cu8)
    } else if b == 0x2fu8 {
        Some(0x2fu8)
    } else if b == 0x62u8 {
        Some(0x08u8)
    } else if b == 0x66u8 {
        Some(0x0cu8)
    } else if b == 0x6eu8 {
        Some(0x0au8)
    } else if b == 0x72u8 {
        Some(0x0du8)
    } else if b == 0x74u8 {
        Some(0x09u8)
    } else {
        None
    }
}

/// The content of a string literal read from `i`, just past its opening
/// quote, up to the closing quote: the unescaped bytes and the position
/// after the closing quote. Raw control bytes and unknown escapes are
/// rejected.
pub open spec fn spec_string_body(s: Seq<u8>, i: int) -> Option<(Seq<u8>, int)>
    decreases s.len() - i,
{
    if i < 0 || i >= s.len() {
        None
    } else if s[i] == 0x22u8 {
        Some((seq![], i + 1))
    } else if s[i] == 0x5cu8 {
        if i + 1 >= s.len() {
            None
        } else {
            match unescape(s[i + 1]) {
                Some(b) => match spec_string_body(s, i + 2) {
                    Some((rest, j)) => Some((seq![b] + rest, j)),
                    None => None,
                },
                None => None,
            }
        }
    } else if s[i] < 0x20u8 {
        None
    } else {
        match spec_string_body(s, i + 1) {
            Some((rest, j)) => Some((seq![s[i]] + rest, j)),
            None => None,
        }
    }
}

proof fn lemma_string_body_bounds(s: Seq<u8>, i: int)
    ensures
        match spec_string_body(s, i) {
            Some((v, j)) => i < j <= s.len(),
            None => true,
        },
    decreases s.len() - i,
{
    if 0 <= i < s.len() {
        if s[i] == 0x22u8 {
        } else if s[i] == 0x5cu8 {
            if i + 1 < s.len() {
                lemma_string_body_bounds(s, i + 2);
            }
        } else {
            lemma_string_body_bounds(s, i + 1);
        }
    }
}

/// A string literal read from `i`, its opening quote included.
pub open spec fn spec_parse_string(s: Seq<u8>, i: int) -> Option<(Seq<u8>, int)> {
    if 0 <= i < s.len() && s[i] == 0x22u8 {
        spec_string_body(s, i + 1)
    } else {
        None
    }
}

fn parse_string(s: &[u8], i: usize) -> (r: Option<(Vec<u8>, usize)>)
    requires
        i <= s@.len(),
    ensures
        match r {
            Some((v, j)) => spec_parse_string(s@, i as int) == Some((v@, j as int)) && i < j
                <= s@.len(),
            None => spec_parse_string(s@, i as int) is None,
        },
{
    if i >= s.len() || s[i] != 0x22u8 {
        return None;
    }
    let start = i + 1;
    let mut cur = start;
    let mut out: Vec<u8> = Vec::new();
    loop
        invariant
            i < start <= cur <= s@.len(),
            start == i + 1,
            s@[i as int] == 0x22u8,
            match spec_string_body(s@, cur as int) {
                Some((rest, j)) => spec_string_body(s@, start as int) == Some((out@ + rest, j)),
                None => spec_string_body(s@, start as int) is None,
            },
        decreases s@.len() - cur,
    {
        if cur >= s.len() {
            return None;
        }
        let b = s[cur];
        if b == 0x22u8 {
            proof {
                assert(spec_string_body(s@, cur as int) == Some(
                    (Seq::<u8>::empty(), cur + 1int),
                ));
                assert(out@ + Seq::<u8>::empty() =~= out@);
                lemma_string_body_bounds(s@, start as int);
            }
            return Some((out, cur + 1));
        } else if b == 0x5cu8 {
            if cur + 1 >= s.len() {
                return None;
            }
            let e = unescape_exec(s[cur + 1]);
            match e {
                None => {
                    return None;
                },
                Some(x) => {
                    proof {
                        match spec_string_body(s@, cur + 2int) {
                            Some((rest, j)) => {
                                assert(spec_string_body(s@, cur as int) == Some(
                                    (seq![x] + rest, j),
                                ));
                                assert(out@ + (seq![x] + rest) =~= (out@ + seq![x]) + rest);
                            },
                            None => {},
                        }
                    }
                    out.push(x);
                    cur = cur + 2;
                },
            }
        } else if b < 0x20u8 {
            return None;
        } else {
            proof {
                match spec_string_body(s@, cur + 1int) {
                    Some((rest, j)) => {
                        assert(spec_string_body(s@, cur as int) == Some((seq![b] + rest, j)));
                        assert(out@ + (seq![b] + rest) =~= (out@ + seq![b]) + rest);
                    },
                    None => {},
                }
            }
            out.push(b);
            cur = cur + 1;
        }
    }
}

/// The first position at or past `i` that holds no decimal digit.
pub open spec fn digits_end(s: Seq<u8>, i: int) -> int
    decreases s.len() - i,
{
    if 0 <= i < s.len() && is_digit(s[i]) {
        digits_end(s, i + 1)
    } else {
        i
    }
}

/// Position `k` exists and holds a decimal digit.
pub open spec fn digit_at(s: Seq<u8>, k: int) -> bool {
    0 <= k < s.len() && is_digit(s[k])
}

proof fn lemma_digits_end_bounds(s: Seq<u8>, i: int)
    requires
        0 <= i <= s.len(),
    ensures
        i <= digits_end(s, i) <= s.len(),
        all_digits(s, i, digits_end(s, i)),
    decreases s.len() - i,
{
    if i < s.len() && is_digit(s[i]) {
        lemma_digits_end_bounds(s, i + 1);
        let e = digits_end(s, i);
        assert forall|k: int| i <= k < e implies #[trigger] digit_at(s, k) by {
            if k > i {
                assert(digit_at(s, k));
            }
        }
    }
}

/// The value of the decimal digits `s[i..j)`.
pub open spec fn digits_value(s: Seq<u8>, i: int, j: int) -> int
    decreases j - i,
{
    if i >= j {
        0
    } else {
        digits_value(s, i, j - 1) * 10 + (s[j - 1] - 0x30)
    }
}

/// Every position in `[i, j)` holds a decimal digit.
pub open spec fn all_digits(s: Seq<u8>, i: int, j: int) -> bool {
    forall|k: int| i <= k < j ==> #[trigger] digit_at(s, k)
}

proof fn lemma_all_digits_sub(s: Seq<u8>, i: int, j: int, j2: int)
    requires
        all_digits(s, i, j),
        j2 <= j,
    ensures
        all_digits(s, i, j2),
{
    assert forall|k: int| i <= k < j2 implies #[trigger] digit_at(s, k) by {
        assert(digit_at(s, k));
    }
}

proof fn lemma_digits_value_mono(s: Seq<u8>, i: int, a: int, b: int)
    requires
        i <= a <= b,
        all_digits(s, i, b),
    ensures
        digits_value(s, i, a) <= digits_value(s, i, b),
    decreases b - a,
{
    if a < b {
        lemma_all_digits_sub(s, i, b, b - 1);
        lemma_digits_value_mono(s, i, a, b - 1);
        lemma_digits_value_nonneg(s, i, b - 1);
        assert(digit_at(s, b - 1));
        assert(digits_value(s, i, b - 1) * 10 >= digits_value(s, i, b - 1)) by {
            lemma_digits_value_nonneg(s, i, b - 1);
        }
    }
}

proof fn lemma_digits_value_nonneg(s: Seq<u8>, i: int, j: int)
    requires
        all_digits(s, i, j),
    ensures
        digits_value(s, i, j) >= 0,
    decreases j - i,
{
    if i < j {
        assert(digit_at(s, j - 1));
        lemma_all_digits_sub(s, i, j, j - 1);
        lemma_digits_value_nonneg(s, i, j - 1);
    }
}

/// An unsigned integer read from `i`: a digit run without a superfluous
/// leading zero whose value fits in a `u64`.
pub open spec fn spec_parse_uint(s: Seq<u8>, i: int) -> Option<(u64, int)> {
    if 0 <= i < s.len() && is_digit(s[i]) {
        let j = digits_end(s, i);
        if s[i] == 0x30u8 && j > i + 1 {
            None
        } else if digits_value(s, i, j) <= u64::MAX {
            Some((digits_value(s, i, j) as u64, j))
        } else {
            None
        }
    } else {
        None
    }
}

fn parse_uint(s: &[u8], i: usize) -> (r: Option<(u64, usize)>)
    requires
        i <= s@.len(),
    ensures
        match r {
            Some((v, j)) => spec_parse_uint(s@, i as int) == Some((v, j as int)) && i < j
                <= s@.len(),
            None => spec_parse_uint(s@, i as int) is None,
        },
{
    if i >= s.len() || !(s[i] >= 0x30u8 && s[i] <= 0x39u8) {
        return None;
    }
    proof {
        lemma_digits_end_bounds(s@, i as int);
        lemma_digits_end_bounds(s@, i + 1int);
        assert(digits_end(s@, i as int) == digits_end(s@, i + 1int));
    }
    let mut j = i;
    while j < s.len() && s[j] >= 0x30u8 && s[j] <= 0x39u8
        invariant
            i <= j <= s@.len(),
            digits_end(s@, i as int) == digits_end(s@, j as int),
        decreases s@.len() - j,
    {
        j += 1;
    }
    let ghost jj = j as int;
    proof {
        assert(digits_end(s@, i as int) == jj);
        assert(jj > i as int);
        assert(all_digits(s@, i as int, jj));
    }
    if s[i] == 0x30u8 && j > i + 1 {
        return None;
    }
    let mut acc: u64 = 0;
    let mut cur = i;
    while cur < j
        invariant
            i <= cur <= j <= s@.len(),
            jj == j as int,
            digits_end(s@, i as int) == jj,
            all_digits(s@, i as int, jj),
            acc as int == digits_value(s@, i as int, cur as int),
        decreases j - cur,
    {
        proof {
            assert(digit_at(s@, cur as int));
        }
        let d = s[cur] - 0x30u8;
        proof {
            assert(digits_value(s@, i as int, cur + 1int) == digits_value(
                s@,
                i as int,
                cur as int,
            ) * 10 + d);
        }
        let step1 = acc.checked_mul(10);
        match step1 {
            Some(x) => {
                let step2 = x.checked_add(d as u64);
                match step2 {
                    Some(v) => {
                        acc = v;
                    },
                    None => {
                        proof {
                            lemma_digits_value_mono(s@, i as int, cur + 1int, jj);
                            assert(digits_value(s@, i as int, jj) > u64::MAX);
                        }
                        return None;
                    },
                }
            },
            None => {
                proof {
                    lemma_digits_value_mono(s@, i as int, cur + 1int, jj);
                    assert(digits_value(s@, i as int, jj) > u64::MAX);
                }
                return None;
            },
        }
        cur += 1;
    }
    Some((acc, j))
}

/// A member value read from `i`: a string, an unsigned integer, `true`,
/// `false` or `null`.
pub open spec fn spec_parse_value(s: Seq<u8>, i: int) -> Option<(JsonView, int)> {
    if i < 0 || i >= s.len() {
        None
    } else if s[i] == 0x22u8 {
        match spec_parse_string(s, i) {
            Some((v, j)) => Some((JsonView::Str(v), j)),
            None => None,
        }
    } else if is_digit(s[i]) {
        match spec_parse_uint(s, i) {
            Some((v, j)) => Some((JsonView::UInt(v), j)),
            None => None,
        }
    } else if i + 4 <= s.len() && s.subrange(i, i + 4) =~= spec_literal_true() {
        Some((JsonView::Bool(true), i + 4))
    } else if i + 5 <= s.len() && s.subrange(i, i + 5) =~= spec_literal_false() {
        Some((JsonView::Bool(false), i + 5))
    } else if i + 4 <= s.len() && s.subrange(i, i + 4) =~= spec_literal_null() {
        Some((JsonView::Null, i + 4))
    } else {
        None
    }
}

pub open spec fn spec_literal_true() -> Seq<u8> {
    seq![0x74u8, 0x72u8, 0x75u8, 0x65u8]
}

pub open spec fn spec_literal_false() -> Seq<u8> {
    seq![0x66u8, 0x61u8, 0x6cu8, 0x73u8, 0x65u8]
}

pub open spec fn spec_literal_null() -> Seq<u8> {
    seq![0x6eu8, 0x75u8, 0x6cu8, 0x6cu8]
}

fn parse_value(s: &[u8], i: usize) -> (r: Option<(JsonValue, usize)>)
    requires
        i <= s@.len(),
    ensures
        match r {
            Some((v, j)) => spec_parse_value(s@, i as int) == Some((v@, j as int)) && i < j
                <= s@.len(),
            None => spec_parse_value(s@, i as int) is None,
        },
{
    if i >= s.len() {
        return None;
    }
    let b = s[i];
    if b == 0x22u8 {
        match parse_string(s, i) {
            Some((v, j)) => Some((JsonValue::Str(v), j)),
            None => None,
        }
    } else if b >= 0x30u8 && b <= 0x39u8 {
        match parse_uint(s, i) {
            Some((v, j)) => Some((JsonValue::UInt(v), j)),
            None => None,
        }
    } else if s.len() - i >= 4 && b == 0x74u8 && s[i + 1] == 0x72u8 && s[i + 2] == 0x75u8 && s[i
        + 3] == 0x65u8 {
        proof {
            assert(s@.subrange(i as int, i + 4int) =~= spec_literal_true());
        }
        Some((JsonValue::Bool(true), i + 4))
    } else if s.len() - i >= 5 && b == 0x66u8 && s[i + 1] == 0x61u8 && s[i + 2] == 0x6cu8 && s[i
        + 3] == 0x73u8 && s[i + 4] == 0x65u8 {
        proof {
            assert(s@.subrange(i as int, i + 5int) =~= spec_literal_false());
        }
        Some((JsonValue::Bool(false), i + 5))
    } else if s.len() - i >= 4 && b == 0x6eu8 && s[i + 1] == 0x75u8 && s[i + 2] == 0x6cu8 && s[i
        + 3] == 0x6cu8 {
        proof {
            assert(s@.subrange(i as int, i + 4int) =~= spec_literal_null());
        }
        Some((JsonValue::Null, i + 4))
    } else {
        proof {
            if i + 4 <= s@.len() {
                assert(s@.subrange(i as int, i + 4int)[0] == b);
            }
            if i + 5 <= s@.len() {
                assert(s@.subrange(i as int, i + 5int)[0] == b);
                assert(s@.subrange(i as int, i + 5int)[1] == s@[i + 1int]);
                assert(s@.subrange(i as int, i + 5int)[2] == s@[i + 2int]);
                assert(s@.subrange(i as int, i + 5int)[3] == s@[i + 3int]);
                assert(s@.subrange(i as int, i + 5int)[4] == s@[i + 4int]);
            }
            if i + 4 <= s@.len() {
                assert(s@.subrange(i as int, i + 4int)[1] == s@[i + 1int]);
                assert(s@.subrange(i as int, i + 4int)[2] == s@[i + 2int]);
                assert(s@.subrange(i as int, i + 4int)[3] == s@[i + 3int]);
            }
        }
        None
    }
}

/// One `"key": value` member read from `i`.
pub open spec fn spec_parse_member(s: Seq<u8>, i: int) -> Option<((Seq<u8>, JsonView), int)> {
    match spec_parse_string(s, i) {
        None => None,
        Some((key, j)) => {
            let k = skip_ws(s, j);
            if k < s.len() && s[k] == 0x3au8 {
                let v = skip_ws(s, k + 1);
                match spec_parse_value(s, v) {
                    Some((val, end)) => Some(((key, val), end)),
                    None => None,
                }
            } else {
                None
            }
        },
    }
}

fn parse_member(s: &[u8], i: usize) -> (r: Option<((Vec<u8>, JsonValue), usize)>)
    requires
        i <= s@.len(),
    ensures
        match r {
            Some((kv, j)) => spec_parse_member(s@, i as int) == Some(((kv.0@, kv.1@), j as int))
                && i < j <= s@.len(),
            None => spec_parse_member(s@, i as int) is None,
        },
{
    match parse_string(s, i) {
        None => None,
        Some((key, j)) => {
            let k = ws_end(s, j);
            if k < s.len() && s[k] == 0x3au8 {
                let v = ws_end(s, k + 1);
                match parse_value(s, v) {
                    Some((val, end)) => Some(((key, val), end)),
                    None => None,
                }
            } else {
                None
            }
        },
    }
}

/// The members of an object read from `i` (which must sit at the first
/// member's opening quote), and the position of the closing brace.
pub open spec fn spec_parse_members(s: Seq<u8>, i: int) -> Option<
    (Seq<(Seq<u8>, JsonView)>, int),
>
    decreases s.len() - i,
{
    match spec_parse_member(s, i) {
        None => None,
        Some((kv, j)) => {
            let k = skip_ws(s, j);
            if k < s.len() && s[k] == 0x2cu8 {
                let n = skip_ws(s, k + 1);
                if i < n <= s.len() {
                    match spec_parse_members(s, n) {
                        Some((rest, end)) => Some((seq![kv] + rest, end)),
                        None => None,
                    }
                } else {
                    None
                }
            } else {
                Some((seq![kv], k))
            }
        },
    }
}

fn parse_members(s: &[u8], i: usize) -> (r: Option<(Vec<(Vec<u8>, JsonValue)>, usize)>)
    requires
        i <= s@.len(),
    ensures
        match r {
            Some((kvs, j)) => spec_parse_members(s@, i as int) == Some(
                (kvs@.map_values(|kv: (Vec<u8>, JsonValue)| (kv.0@, kv.1@)), j as int),
            ) && j <= s@.len(),
            None => spec_parse_members(s@, i as int) is None,
        },
{
    let mut out: Vec<(Vec<u8>, JsonValue)> = Vec::new();
    let mut cur = i;
    loop
        invariant
            i <= cur <= s@.len(),
            ({
                let done = out@.map_values(|kv: (Vec<u8>, JsonValue)| (kv.0@, kv.1@));
                match spec_parse_members(s@, cur as int) {
                    Some((rest, j)) => spec_parse_members(s@, i as int) == Some(
                        (done + rest, j),
                    ),
                    None => spec_parse_members(s@, i as int) is None,
                }
            }),
        decreases s@.len() - cur,
    {
        let m = parse_member(s, cur);
        match m {
            None => {
                return None;
            },
            Some((kv, j)) => {
                let k = ws_end(s, j);
                let ghost done_before = out@.map_values(
                    |kv: (Vec<u8>, JsonValue)| (kv.0@, kv.1@),
                );
                let ghost kv_view = (kv.0@, kv.1@);
                if k < s.len() && s[k] == 0x2cu8 {
                    let n = ws_end(s, k + 1);
                    if n <= cur {
                        // Whitespace skipping never moves backwards; this
                        // cannot happen, but the check keeps the loop measure
                        // simple.
                        return None;
                    }
                    out.push(kv);
                    cur = n;
                    proof {
                        assert(out@.map_values(|kv: (Vec<u8>, JsonValue)| (kv.0@, kv.1@))
                            =~= done_before.push(kv_view));
                        match spec_parse_members(s@, cur as int) {
                            Some((rest, j2)) => {
                                assert(done_before + (seq![kv_view] + rest) =~= done_before.push(
                                    kv_view,
                                ) + rest);
                            },
                            None => {},
                        }
                    }
                } else {
                    out.push(kv);
                    proof {
                        assert(out@.map_values(|kv: (Vec<u8>, JsonValue)| (kv.0@, kv.1@))
                            =~= done_before.push(kv_view));
                        assert(spec_parse_members(s@, cur as int) == Some(
                            (seq![kv_view], k as int),
                        ));
                        assert(done_before + seq![kv_view] =~= done_before.push(kv_view));
                    }
                    return Some((out, k));
                }
            },
        }
    }
}

/// The members of the single flat object that the whole input holds, or
/// nothing when the input is not such an object.
pub open spec fn spec_parse_object(s: Seq<u8>) -> Option<Seq<(Seq<u8>, JsonView)>> {
    let i = skip_ws(s, 0);
    if 0 <= i < s.len() && s[i] == 0x7bu8 {
        let j = skip_ws(s, i + 1);
        if 0 <= j < s.len() && s[j] == 0x7du8 {
            if skip_ws(s, j + 1) == s.len() {
                Some(seq![])
            } else {
                None
            }
        } else {
            match spec_parse_members(s, j) {
                Some((kvs, k)) => if 0 <= k < s.len() && s[k] == 0x7du8 && skip_ws(s, k + 1)
                    == s.len() {
                    Some(kvs)
                } else {
                    None
                },
                None => None,
            }
        }
    } else {
        None
    }
}

/// Reads the whole input as one flat object.
pub fn parse_object(s: &[u8]) -> (r: Option<Vec<(Vec<u8>, JsonValue)>>)
    ensures
        match r {
            Some(kvs) => spec_parse_object(s@) == Some(
                kvs@.map_values(|kv: (Vec<u8>, JsonValue)| (kv.0@, kv.1@)),
            ),
            None => spec_parse_object(s@) is None,
        },
{
    let i = ws_end(s, 0);
    if i >= s.len() || s[i] != 0x7bu8 {
        return None;
    }
    let j = ws_end(s, i + 1);
    if j < s.len() && s[j] == 0x7du8 {
        if ws_end(s, j + 1) == s.len() {
            let empty: Vec<(Vec<u8>, JsonValue)> = Vec::new();
            proof {
                assert(empty@.map_values(|kv: (Vec<u8>, JsonValue)| (kv.0@, kv.1@))
                    =~= Seq::<(Seq<u8>, JsonView)>::empty());
            }
            return Some(empty);
        } else {
            return None;
        }
    }
    match parse_members(s, j) {
        None => None,
        Some((kvs, k)) => {
            if k < s.len() && s[k] == 0x7du8 && ws_end(s, k + 1) == s.len() {
                Some(kvs)
            } else {
                None
            }
        },
    }
}

/// The escape sequence a byte is written as inside a JSON string: the
/// two-character escapes for quote, backslash and the common control
/// characters, the six-character form for the other control characters, and
/// the byte itself otherwise.
pub open spec fn esc_byte(b: u8) -> Seq<u8> {
    if b == 0x22u8 {
        seq![0x5cu8, 0x22u8]
    } else if b == 0x5cu8 {
        seq![0x5cu8, 0x5cu8]
    } else if b == 0x08u8 {
        seq![0x5cu8, 0x62u8]
    } else if b == 0x0cu8 {
        seq![0x5cu8, 0x66u8]
    } else if b == 0x0au8 {
        seq![0x5cu8, 0x6eu8]
    } else if b == 0x0du8 {
        seq![0x5cu8, 0x72u8]
    } else if b == 0x09u8 {
        seq![0x5cu8, 0x74u8]
    } else if b < 0x20u8 {
        seq![0x5cu8, 0x75u8, 0x30u8, 0x30u8, crate::util::hex_digit(b / 16), crate::util::hex_digit(
            b % 16,
        )]
    } else {
        seq![b]
    }
}

/// A byte sequence with every byte escaped for a JSON string.
pub open spec fn json_escape(bs: Seq<u8>) -> Seq<u8>
    decreases bs.len(),
{
    if bs.len() == 0 {
        seq![]
    } else {
        esc_byte(bs[0]) + json_escape(bs.drop_first())
    }
}

proof fn lemma_json_escape_take_succ(bs: Seq<u8>, i: int)
    requires
        0 <= i < bs.len(),
    ensures
        json_escape(bs.take(i + 1)) == json_escape(bs.take(i)) + esc_byte(bs[i]),
    decreases i,
{
    let a = bs.take(i + 1);
    if i == 0 {
        assert(a.drop_first() =~= Seq::<u8>::empty());
        assert(json_escape(a.drop_first()) == Seq::<u8>::empty());
        assert(json_escape(bs.take(0)) == Seq::<u8>::empty());
        assert(a[0] == bs[0]);
        assert(json_escape(a) =~= json_escape(bs.take(0)) + esc_byte(bs[0]));
    } else {
        lemma_json_escape_take_succ(bs.drop_first(), i - 1);
        assert(a.drop_first() =~= bs.drop_first().take(i));
        assert(bs.take(i).drop_first() =~= bs.drop_first().take(i - 1));
        assert(bs.drop_first()[i - 1] == bs[i]);
        assert(json_escape(a) =~= json_escape(bs.take(i)) + esc_byte(bs[i]));
    }
}

/// A JSON string: quote, escaped content, quote.
pub open spec fn json_string(bs: Seq<u8>) -> Seq<u8> {
    seq![0x22u8] + json_escape(bs) + seq![0x22u8]
}

/// The UTF-8 bytes of a literal.
pub open spec fn lit(s: &str) -> Seq<u8> {
    s.spec_bytes()
}

/// Appends a literal's UTF-8 bytes.
pub fn push_lit(out: &mut Vec<u8>, piece: &str)
    ensures
        final(out)@ == old(out)@ + lit(piece),
{
    let mut v = piece.as_bytes_vec();
    out.append(&mut v);
}

fn push_esc_byte(out: &mut Vec<u8>, b: u8)
    ensures
        final(out)@ == old(out)@ + esc_byte(b),
{
    if b == 0x22u8 {
        out.push(0x5cu8);
        out.push(0x22u8);
    } else if b == 0x5cu8 {
        out.push(0x5cu8);
        out.push(0x5cu8);
    } else if b == 0x08u8 {
        out.push(0x5cu8);
        out.push(0x62u8);
    } else if b == 0x0cu8 {
        out.push(0x5cu8);
        out.push(0x66u8);
    } else if b == 0x0au8 {
        out.push(0x5cu8);
        out.push(0x6eu8);
    } else if b == 0x0du8 {
        out.push(0x5cu8);
        out.push(0x72u8);
    } else if b == 0x09u8 {
        out.push(0x5cu8);
        out.push(0x74u8);
    } else if b < 0x20u8 {
        out.push(0x5cu8);
        out.push(0x75u8);
        out.push(0x30u8);
        out.push(0x30u8);
        out.push(crate::util::hex_digit_of(b / 16));
        out.push(crate::util::hex_digit_of(b % 16));
    } else {
        out.push(b);
    }
    proof {
        assert(final(out)@ =~= old(out)@ + esc_byte(b));
    }
}

/// Appends a string's bytes as a JSON string, quotes and escapes included.
pub fn push_json_string(out: &mut Vec<u8>, s: &str)
    ensures
        final(out)@ == old(out)@ + json_string(s.spec_bytes()),
{
    let bs = s.as_bytes();
    out.push(0x22u8);
    let mut i: usize = 0;
    while i < bs.len()
        invariant
            i <= bs@.len(),
            bs@ == s.spec_bytes(),
            out@ == old(out)@ + seq![0x22u8] + json_escape(bs@.take(i as int)),
        decreases bs@.len() - i,
    {
        proof {
            lemma_json_escape_take_succ(bs@, i as int);
        }
        push_esc_byte(out, bs[i]);
        i += 1;
    }
    out.push(0x22u8);
    proof {
        assert(bs@.take(bs@.len() as int) =~= bs@);
        assert(final(out)@ =~= old(out)@ + json_string(s.spec_bytes()));
    }
}

/// The decimal digits of an unsigned value.
pub open spec fn spec_dec(n: nat) -> Seq<u8>
    decreases n,
{
    if n < 10 {
        seq![(0x30 + n) as u8]
    } else {
        spec_dec(n / 10) + seq![(0x30 + n % 10) as u8]
    }
}

/// Appends a value's decimal digits.
pub fn push_dec(out: &mut Vec<u8>, n: u64)
    ensures
        final(out)@ == old(out)@ + spec_dec(n as nat),
    decreases n,
{
    if n < 10 {
        out.push(0x30u8 + n as u8);
        proof {
            assert(final(out)@ =~= old(out)@ + spec_dec(n as nat));
        }
    } else {
        push_dec(out, n / 10);
        out.push(0x30u8 + (n % 10) as u8);
        proof {
            assert(final(out)@ =~= old(out)@ + spec_dec(n as nat));
        }
    }
}

/// The decimal form of a signed value: a minus sign and the magnitude.
pub open spec fn spec_dec_signed(v: int) -> Seq<u8> {
    if v < 0 {
        seq![0x2du8] + spec_dec((-v) as nat)
    } else {
        spec_dec(v as nat)
    }
}

/// Appends a signed value's decimal form.
pub fn push_dec_signed(out: &mut Vec<u8>, v: i64)
    ensures
        final(out)@ == old(out)@ + spec_dec_signed(v as int),
{
    if v < 0 {
        out.push(0x2du8);
        let magnitude = (-(v as i128)) as u64;
        push_dec(out, magnitude);
        proof {
            assert(final(out)@ =~= old(out)@ + spec_dec_signed(v as int));
        }
    } else {
        push_dec(out, v as u64);
    }
}

/// A JSON array of strings.
pub open spec fn json_string_array(items: Seq<Seq<u8>>) -> Seq<u8> {
    seq![0x5bu8] + json_string_items(items) + seq![0x5du8]
}

/// The comma-separated items of a string array.
pub open spec fn json_string_items(items: Seq<Seq<u8>>) -> Seq<u8>
    decreases items.len(),
{
    if items.len() == 0 {
        seq![]
    } else if items.len() == 1 {
        json_string(items[0])
    } else {
        json_string_items(items.drop_last()) + seq![0x2cu8] + json_string(items.last())
    }
}

/// Appends the strings as a JSON array.
pub fn push_json_string_array(out: &mut Vec<u8>, items: &Vec<String>)
    ensures
        final(out)@ == old(out)@ + json_string_array(
            items@.map_values(|s: String| vstd::utf8::encode_utf8(s@)),
        ),
{
    let ghost views = items@.map_values(|s: String| vstd::utf8::encode_utf8(s@));
    out.push(0x5bu8);
    let mut i: usize = 0;
    while i < items.len()
        invariant
            i <= items@.len(),
            views == items@.map_values(|s: String| vstd::utf8::encode_utf8(s@)),
            out@ == old(out)@ + seq![0x5bu8] + json_string_items(views.take(i as int)),
        decreases items@.len() - i,
    {
        if i > 0 {
            out.push(0x2cu8);
        }
        push_json_string(out, items[i].as_str());
        proof {
            let t = views.take(i + 1);
            assert(t.drop_last() =~= views.take(i as int));
            assert(t.last() == views[i as int]);
            if i == 0 {
                assert(json_string_items(t) =~= json_string(views[0]));
            }
            assert(out@ =~= old(out)@ + seq![0x5bu8] + json_string_items(views.take(i + 1)));
        }
        i += 1;
    }
    out.push(0x5du8);
    proof {
        assert(views.take(views.len() as int) =~= views);
        assert(final(out)@ =~= old(out)@ + json_string_array(views));
    }
}

/// The value of the first member with this key, if any.
pub open spec fn spec_lookup(kvs: Seq<(Seq<u8>, JsonView)>, key: Seq<u8>) -> Option<JsonView> {
    let i = find_key(kvs, key);
    if i == -1 {
        None
    } else {
        Some(kvs[i].1)
    }
}

/// Finds the first member with this key.
pub fn lookup<'a>(kvs: &'a Vec<(Vec<u8>, JsonValue)>, key: &[u8]) -> (r: Option<&'a JsonValue>)
    ensures
        ({
            let view = kvs@.map_values(|kv: (Vec<u8>, JsonValue)| (kv.0@, kv.1@));
            match r {
                Some(v) => spec_lookup(view, key@) == Some(v@),
                None => spec_lookup(view, key@) is None,
            }
        }),
{
    let ghost view = kvs@.map_values(|kv: (Vec<u8>, JsonValue)| (kv.0@, kv.1@));
    let mut i: usize = 0;
    while i < kvs.len()
        invariant
            i <= kvs@.len(),
            view == kvs@.map_values(|kv: (Vec<u8>, JsonValue)| (kv.0@, kv.1@)),
            forall|j: int| 0 <= j < i ==> view[j].0 != key@,
        decreases kvs@.len() - i,
    {
        if bytes_eq(kvs[i].0.as_slice(), key) {
            proof {
                crate::util::lemma_find_key_first(view, key@, i as int);
            }
            return Some(&kvs[i].1);
        }
        i += 1;
    }
    proof {
        crate::util::lemma_find_key_none(view, key@);
    }
    None
}

} // verus!
