//! The wire form of a post inside a queue message: five optional fields,
//! each tagged and length-prefixed, the text carried as UTF-8 bytes.
//!
//! Decoding inverts encoding exactly; a payload that does not follow this
//! frame is rejected, which models a corrupt queue message.

use vstd::bytes::{spec_u64_from_le_bytes, spec_u64_to_le_bytes, u64_from_le_bytes, u64_to_le_bytes};
use vstd::prelude::*;
use vstd::slice::slice_subrange;
use vstd::string::{StrSliceExecFns, StringExecFns, StringSliceAdditionalSpecFns};
use vstd::utf8::{decode_utf8, encode_utf8, valid_utf8};

use crate::post::{opt_view, NewsPost, PostView};
use crate::util::utf8_to_str;

verus! {

broadcast use vstd::utf8::encode_utf8_decode_utf8, vstd::utf8::encode_utf8_valid_utf8;

/// The encoding of one optional text field: a presence tag, then for a
/// present field the UTF-8 length as eight little-endian bytes and the
/// UTF-8 bytes themselves.
pub open spec fn spec_encode_field(f: Option<Seq<char>>) -> Seq<u8> {
    match f {
        None => seq![0u8],
        Some(cs) => seq![1u8] + spec_u64_to_le_bytes(encode_utf8(cs).len() as u64) + encode_utf8(
            cs,
        ),
    }
}

/// The encoding of a whole post: its five fields in declaration order.
pub open spec fn spec_encode_post(p: PostView) -> Seq<u8> {
    spec_encode_field(p.image) + spec_encode_field(p.title) + spec_encode_field(p.summary)
        + spec_encode_field(p.link) + spec_encode_field(p.author)
}

/// A field view small enough for its UTF-8 length to be carried in the
/// eight-byte prefix.
pub open spec fn field_fits(f: Option<Seq<char>>) -> bool {
    match f {
        None => true,
        Some(cs) => encode_utf8(cs).len() <= usize::MAX,
    }
}

/// Every field of the post fits its length prefix.
pub open spec fn post_fits(p: PostView) -> bool {
    &&& field_fits(p.image)
    &&& field_fits(p.title)
    &&& field_fits(p.summary)
    &&& field_fits(p.link)
    &&& field_fits(p.author)
}

fn append_field(out: &mut Vec<u8>, f: &Option<String>)
    ensures
        final(out)@ == old(out)@ + spec_encode_field(opt_view(*f)),
{
    match f {
        None => {
            out.push(0u8);
            assert(final(out)@ =~= old(out)@ + spec_encode_field(opt_view(*f)));
        },
        Some(s) => {
            out.push(1u8);
            let bs = s.as_str().as_bytes_vec();
            let mut lenb = u64_to_le_bytes(bs.len() as u64);
            out.append(&mut lenb);
            let mut content = bs;
            out.append(&mut content);
            assert(final(out)@ =~= old(out)@ + spec_encode_field(opt_view(*f)));
        },
    }
}

/// Encodes a post for the queue.
pub fn encode_post(p: &NewsPost) -> (r: Vec<u8>)
    ensures
        r@ == spec_encode_post(p@),
{
    let mut out: Vec<u8> = Vec::new();
    append_field(&mut out, &p.image);
    append_field(&mut out, &p.title);
    append_field(&mut out, &p.summary);
    append_field(&mut out, &p.link);
    append_field(&mut out, &p.author);
    assert(out@ =~= spec_encode_post(p@));
    out
}

/// What decoding one field from position `i` yields: the field and the
/// position after it, or nothing when the bytes do not follow the frame.
pub open spec fn spec_decode_field(bs: Seq<u8>, i: int) -> Option<(Option<Seq<char>>, int)> {
    if i < 0 || i >= bs.len() {
        None
    } else if bs[i] == 0u8 {
        Some((None, i + 1))
    } else if bs[i] == 1u8 {
        if i + 9 > bs.len() {
            None
        } else {
            let l = spec_u64_from_le_bytes(bs.subrange(i + 1, i + 9)) as int;
            if i + 9 + l > bs.len() {
                None
            } else {
                let content = bs.subrange(i + 9, i + 9 + l);
                if valid_utf8(content) {
                    Some((Some(decode_utf8(content)), i + 9 + l))
                } else {
                    None
                }
            }
        }
    } else {
        None
    }
}

/// What decoding a whole payload yields: a post view exactly when the bytes
/// are five well-formed fields and nothing more.
pub open spec fn spec_decode_post(bs: Seq<u8>) -> Option<PostView> {
    match spec_decode_field(bs, 0) {
        None => None,
        Some((image, i1)) => match spec_decode_field(bs, i1) {
            None => None,
            Some((title, i2)) => match spec_decode_field(bs, i2) {
                None => None,
                Some((summary, i3)) => match spec_decode_field(bs, i3) {
                    None => None,
                    Some((link, i4)) => match spec_decode_field(bs, i4) {
                        None => None,
                        Some((author, i5)) => if i5 == bs.len() {
                            Some(PostView { image, title, summary, link, author })
                        } else {
                            None
                        },
                    },
                },
            },
        },
    }
}

fn decode_field(bs: &[u8], i: usize) -> (r: Option<(Option<String>, usize)>)
    requires
        i <= bs@.len(),
    ensures
        match r {
            Some((f, j)) => {
                &&& spec_decode_field(bs@, i as int) == Some((opt_view(f), j as int))
                &&& i < j <= bs@.len()
            },
            None => spec_decode_field(bs@, i as int) is None,
        },
{
    if i >= bs.len() {
        return None;
    }
    let tag = bs[i];
    if tag == 0u8 {
        Some((None, i + 1))
    } else if tag == 1u8 {
        if bs.len() - i < 9 {
            return None;
        }
        let lenb = slice_subrange(bs, i + 1, i + 9);
        let l64 = u64_from_le_bytes(lenb);
        if l64 > (bs.len() - (i + 9)) as u64 {
            return None;
        }
        let l = l64 as usize;
        let content = slice_subrange(bs, i + 9, i + 9 + l);
        match utf8_to_str(content) {
            Some(s) => {
                let owned = String::from_str(s);
                proof {
                    assert(owned@ == decode_utf8(content@));
                }
                Some((Some(owned), i + 9 + l))
            },
            None => None,
        }
    } else {
        None
    }
}

/// Decodes a queue payload back into a post; a malformed payload yields
/// nothing.
pub fn decode_post(bs: &[u8]) -> (r: Option<NewsPost>)
    ensures
        match r {
            Some(p) => spec_decode_post(bs@) == Some(p@),
            None => spec_decode_post(bs@) is None,
        },
{
    let r1 = decode_field(bs, 0);
    match r1 {
        None => None,
        Some((image, i1)) => match decode_field(bs, i1) {
            None => None,
            Some((title, i2)) => match decode_field(bs, i2) {
                None => None,
                Some((summary, i3)) => match decode_field(bs, i3) {
                    None => None,
                    Some((link, i4)) => match decode_field(bs, i4) {
                        None => None,
                        Some((author, i5)) => {
                            if i5 == bs.len() {
                                Some(NewsPost { image, title, summary, link, author })
                            } else {
                                None
                            }
                        },
                    },
                },
            },
        },
    }
}

proof fn lemma_decode_field_of_encoding(f: Option<Seq<char>>, rest: Seq<u8>, prefix: Seq<u8>)
    requires
        field_fits(f),
    ensures
        spec_decode_field(prefix + spec_encode_field(f) + rest, prefix.len() as int) == Some(
            (f, prefix.len() + spec_encode_field(f).len() as int),
        ),
{
    let bs = prefix + spec_encode_field(f) + rest;
    let i = prefix.len() as int;
    match f {
        None => {
            assert(bs[i] == 0u8);
        },
        Some(cs) => {
            let enc = encode_utf8(cs);
            let lenb = spec_u64_to_le_bytes(enc.len() as u64);
            assert(bs[i] == 1u8);
            vstd::bytes::lemma_auto_spec_u64_to_from_le_bytes();
            assert(lenb.len() == 8);
            assert(bs.subrange(i + 1, i + 9) =~= lenb);
            assert(spec_u64_from_le_bytes(lenb) == enc.len() as u64);
            assert(i + 9 + enc.len() <= bs.len());
            assert(bs.subrange(i + 9, i + 9 + enc.len()) =~= enc);
            assert(valid_utf8(enc));
            assert(decode_utf8(enc) == cs);
        },
    }
}

/// Decoding inverts encoding: a payload written by `encode_post` reads back
/// as the same post.
pub proof fn lemma_codec_round_trip(p: PostView)
    requires
        post_fits(p),
    ensures
        spec_decode_post(spec_encode_post(p)) == Some(p),
{
    let e1 = spec_encode_field(p.image);
    let e2 = spec_encode_field(p.title);
    let e3 = spec_encode_field(p.summary);
    let e4 = spec_encode_field(p.link);
    let e5 = spec_encode_field(p.author);
    let bs = spec_encode_post(p);
    let empty = Seq::<u8>::empty();
    assert(bs =~= empty + e1 + (e2 + e3 + e4 + e5));
    lemma_decode_field_of_encoding(p.image, e2 + e3 + e4 + e5, empty);
    assert(spec_decode_field(bs, 0) == Some((p.image, e1.len() as int)));
    assert(bs =~= e1 + e2 + (e3 + e4 + e5));
    lemma_decode_field_of_encoding(p.title, e3 + e4 + e5, e1);
    assert(spec_decode_field(bs, e1.len() as int) == Some((p.title, (e1 + e2).len() as int)));
    assert(bs =~= (e1 + e2) + e3 + (e4 + e5));
    lemma_decode_field_of_encoding(p.summary, e4 + e5, e1 + e2);
    assert(spec_decode_field(bs, (e1 + e2).len() as int) == Some(
        (p.summary, (e1 + e2 + e3).len() as int),
    ));
    assert(bs =~= (e1 + e2 + e3) + e4 + e5);
    lemma_decode_field_of_encoding(p.link, e5, e1 + e2 + e3);
    assert(spec_decode_field(bs, (e1 + e2 + e3).len() as int) == Some(
        (p.link, (e1 + e2 + e3 + e4).len() as int),
    ));
    assert(bs =~= (e1 + e2 + e3 + e4) + e5 + empty);
    lemma_decode_field_of_encoding(p.author, empty, e1 + e2 + e3 + e4);
    assert(spec_decode_field(bs, (e1 + e2 + e3 + e4).len() as int) == Some(
        (p.author, bs.len() as int),
    ));
}

} // verus!
