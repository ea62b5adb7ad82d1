//! Small byte-level helpers shared by the codec, the fingerprint and the
//! token machinery.

use vstd::prelude::*;
use vstd::string::StringSliceAdditionalSpecFns;
use vstd::utf8::valid_utf8;

verus! {

/// The first index whose key equals `k`, or -1.
pub open spec fn find_key<K, V>(s: Seq<(K, V)>, k: K) -> int
    decreases s.len(),
{
    if s.len() == 0 {
        -1
    } else if s[0].0 == k {
        0
    } else {
        let r = find_key(s.drop_first(), k);
        if r == -1 {
            -1
        } else {
            r + 1
        }
    }
}

pub proof fn lemma_find_key_first<K, V>(s: Seq<(K, V)>, k: K, i: int)
    requires
        0 <= i < s.len(),
        s[i].0 == k,
        forall|j: int| 0 <= j < i ==> s[j].0 != k,
    ensures
        find_key(s, k) == i,
    decreases i,
{
    if i > 0 {
        lemma_find_key_first(s.drop_first(), k, i - 1);
    }
}

pub proof fn lemma_find_key_none<K, V>(s: Seq<(K, V)>, k: K)
    requires
        forall|j: int| 0 <= j < s.len() ==> s[j].0 != k,
    ensures
        find_key(s, k) == -1,
    decreases s.len(),
{
    if s.len() > 0 {
        lemma_find_key_none(s.drop_first(), k);
    }
}

pub proof fn lemma_find_key_props<K, V>(s: Seq<(K, V)>, k: K)
    ensures
        -1 <= find_key(s, k) < s.len(),
        find_key(s, k) == -1 ==> forall|j: int| 0 <= j < s.len() ==> s[j].0 != k,
        find_key(s, k) != -1 ==> s[find_key(s, k)].0 == k && (forall|j: int|
            0 <= j < find_key(s, k) ==> s[j].0 != k),
    decreases s.len(),
{
    if s.len() > 0 {
        lemma_find_key_props(s.drop_first(), k);
        if s[0].0 != k {
            let r = find_key(s.drop_first(), k);
            if r == -1 {
                assert forall|j: int| 0 <= j < s.len() implies s[j].0 != k by {
                    if j > 0 {
                        assert(s[j] == s.drop_first()[j - 1]);
                    }
                }
            } else {
                assert(s[r + 1] == s.drop_first()[r]);
                assert forall|j: int| 0 <= j < r + 1 implies s[j].0 != k by {
                    if j > 0 {
                        assert(s[j] == s.drop_first()[j - 1]);
                    }
                }
            }
        }
    }
}

/// Sequences with pointwise-equal keys are searched alike.
pub proof fn lemma_find_key_same_keys<K, V>(s1: Seq<(K, V)>, s2: Seq<(K, V)>, k: K)
    requires
        s1.len() == s2.len(),
        forall|j: int| 0 <= j < s1.len() ==> s1[j].0 == s2[j].0,
    ensures
        find_key(s1, k) == find_key(s2, k),
    decreases s1.len(),
{
    if s1.len() > 0 {
        assert(forall|j: int|
            0 <= j < s1.drop_first().len() ==> s1.drop_first()[j].0 == s2.drop_first()[j].0);
        lemma_find_key_same_keys(s1.drop_first(), s2.drop_first(), k);
    }
}


/// Byte-wise equality of two slices.
pub fn bytes_eq(a: &[u8], b: &[u8]) -> (r: bool)
    ensures
        r == (a@ == b@),
{
    if a.len() != b.len() {
        assert(a@ != b@) by {
            assert(a@.len() != b@.len());
        }
        return false;
    }
    let mut i: usize = 0;
    while i < a.len()
        invariant
            i <= a@.len(),
            a@.len() == b@.len(),
            forall|j: int| 0 <= j < i ==> a@[j] == b@[j],
        decreases a@.len() - i,
    {
        if a[i] != b[i] {
            return false;
        }
        i += 1;
    }
    proof {
        assert(a@ =~= b@);
    }
    true
}

/// The lower-case hex digit for a nibble.
pub open spec fn hex_digit(n: u8) -> u8 {
    if n < 10 {
        (0x30 + n) as u8
    } else {
        (0x57 + n) as u8
    }
}

/// The lower-case hex rendering of a byte sequence, two digits per byte.
pub open spec fn spec_hex(bs: Seq<u8>) -> Seq<u8>
    decreases bs.len(),
{
    if bs.len() == 0 {
        seq![]
    } else {
        seq![hex_digit(bs[0] / 16), hex_digit(bs[0] % 16)] + spec_hex(bs.drop_first())
    }
}

proof fn lemma_hex_take_succ(bs: Seq<u8>, i: int)
    requires
        0 <= i < bs.len(),
    ensures
        spec_hex(bs.take(i + 1)) == spec_hex(bs.take(i)) + seq![
            hex_digit(bs[i] / 16),
            hex_digit(bs[i] % 16),
        ],
    decreases i,
{
    let a = bs.take(i + 1);
    if i == 0 {
        assert(a.drop_first() =~= Seq::<u8>::empty());
        assert(spec_hex(a.drop_first()) == Seq::<u8>::empty());
        assert(spec_hex(bs.take(0)) == Seq::<u8>::empty());
        assert(spec_hex(a) =~= spec_hex(bs.take(0)) + seq![
            hex_digit(bs[0] / 16),
            hex_digit(bs[0] % 16),
        ]);
    } else {
        lemma_hex_take_succ(bs.drop_first(), i - 1);
        assert(a.drop_first() =~= bs.drop_first().take(i));
        assert(bs.take(i).drop_first() =~= bs.drop_first().take(i - 1));
        assert(spec_hex(a) == seq![hex_digit(a[0] / 16), hex_digit(a[0] % 16)] + spec_hex(
            bs.drop_first().take(i),
        ));
        assert(spec_hex(bs.take(i)) == seq![hex_digit(bs[0] / 16), hex_digit(bs[0] % 16)]
            + spec_hex(bs.drop_first().take(i - 1)));
        assert(bs.drop_first()[i - 1] == bs[i]);
        assert(spec_hex(a) =~= spec_hex(bs.take(i)) + seq![
            hex_digit(bs[i] / 16),
            hex_digit(bs[i] % 16),
        ]);
    }
}

/// Renders a byte slice as lower-case hex, two digits per byte.
pub fn hex_bytes(bs: &[u8]) -> (r: Vec<u8>)
    ensures
        r@ == spec_hex(bs@),
{
    let mut out: Vec<u8> = Vec::new();
    let mut i: usize = 0;
    while i < bs.len()
        invariant
            i <= bs@.len(),
            out@ == spec_hex(bs@.take(i as int)),
        decreases bs@.len() - i,
    {
        let b = bs[i];
        out.push(hex_digit_of(b / 16));
        out.push(hex_digit_of(b % 16));
        proof {
            lemma_hex_take_succ(bs@, i as int);
        }
        i += 1;
    }
    proof {
        assert(bs@.take(bs@.len() as int) =~= bs@);
    }
    out
}

pub fn hex_digit_of(n: u8) -> (r: u8)
    requires
        n < 16,
    ensures
        r == hex_digit(n),
{
    if n < 10 {
        0x30 + n
    } else {
        0x57 + n
    }
}

/// Relies on core::str::from_utf8: it returns Ok exactly when the bytes are
/// valid UTF-8, and the returned slice views those same bytes.
#[verifier::external_body]
pub fn utf8_to_str(v: &[u8]) -> (r: Option<&str>)
    ensures
        match r {
            Some(s) => s.spec_bytes() == v@ && valid_utf8(v@),
            None => !valid_utf8(v@),
        },
{
    core::str::from_utf8(v).ok()
}

} // verus!
