//! Credential token lifecycle: a bearer token whose access credential embeds
//! an expiry claim. A token counts as expired a safety margin before the
//! claim, so a call made with a token this module accepts never races the
//! real expiry; refresh replaces the whole token or leaves it untouched.

use vstd::prelude::*;
use vstd::string::{StringExecFns, StringSliceAdditionalSpecFns, StrSliceExecFns};
use vstd::utf8::{encode_utf8, valid_utf8};

use base64::Engine;

use crate::json::{
    lookup, parse_object, spec_lookup, spec_parse_object, JsonValue, JsonView,
};
use crate::util::utf8_to_str;

verus! {

/// How many seconds before the claimed expiry a token already counts as
/// expired.
pub const TOKEN_EXPIRY_MARGIN_SECONDS: u64 = 60;

/// Token represents a platform authentication token.
#[derive(Debug, PartialEq)]
pub struct Token {
    pub handle: String,
    pub access_jwt: String,
    pub refresh_jwt: String,
}

/// Why a token could not be inspected.
#[derive(Debug, PartialEq, Eq, Structural, Clone, Copy)]
pub enum TokenError {
    /// The access credential has no payload segment.
    MissingPayload,
    /// The payload segment is not valid base64.
    InvalidBase64,
    /// The decoded payload is not a claims record of the expected shape.
    InvalidPayload,
}

/// The first position at or past `from` holding `c`, or -1.
pub open spec fn find_char(s: Seq<char>, c: char, from: int) -> int
    decreases s.len() - from,
{
    if 0 <= from < s.len() {
        if s[from] == c {
            from
        } else {
            find_char(s, c, from + 1)
        }
    } else {
        -1
    }
}

/// The second dot-separated segment of a credential string: the payload of
/// a JSON web token. Without any dot there is no payload; with one dot the
/// payload runs to the end.
pub open spec fn spec_payload_part(s: Seq<char>) -> Option<Seq<char>> {
    let d1 = find_char(s, '.', 0);
    if d1 == -1 {
        None
    } else {
        let d2 = find_char(s, '.', d1 + 1);
        if d2 == -1 {
            Some(s.subrange(d1 + 1, s.len() as int))
        } else {
            Some(s.subrange(d1 + 1, d2))
        }
    }
}

fn find_char_from(s: &str, c: char, from: usize) -> (r: Option<usize>)
    requires
        from <= s@.len(),
    ensures
        match r {
            Some(i) => from <= i < s@.len() && find_char(s@, c, from as int) == i as int,
            None => find_char(s@, c, from as int) == -1,
        },
{
    let n = s.unicode_len();
    let mut i = from;
    while i < n
        invariant
            from <= i <= n,
            n == s@.len(),
            find_char(s@, c, from as int) == find_char(s@, c, i as int),
        decreases n - i,
    {
        if s.get_char(i) == c {
            return Some(i);
        }
        i += 1;
    }
    None
}

/// Extracts the payload segment of a credential string.
pub fn payload_part(jwt: &str) -> (r: Option<&str>)
    ensures
        match r {
            Some(p) => spec_payload_part(jwt@) == Some(p@),
            None => spec_payload_part(jwt@) is None,
        },
{
    let d1 = find_char_from(jwt, '.', 0);
    match d1 {
        None => None,
        Some(d1) => {
            let n = jwt.unicode_len();
            let d2 = find_char_from(jwt, '.', d1 + 1);
            match d2 {
                None => Some(jwt.substring_char(d1 + 1, n)),
                Some(d2) => Some(jwt.substring_char(d1 + 1, d2)),
            }
        },
    }
}

/// What base64 decoding yields on these characters, when they are valid
/// standard base64 without padding.
pub uninterp spec fn b64_decode_of(s: Seq<char>) -> Option<Seq<u8>>;

/// Relies on base64's STANDARD_NO_PAD engine: the decoding is a function of
/// the input characters alone, and decoding fails exactly on input that is
/// not standard base64 without padding.
#[verifier::external_body]
fn b64_decode(s: &str) -> (r: Option<Vec<u8>>)
    ensures
        match r {
            Some(v) => b64_decode_of(s@) == Some(v@),
            None => b64_decode_of(s@) is None,
        },
{
    base64::prelude::BASE64_STANDARD_NO_PAD.decode(s).ok()
}

fn push4(a: u8, b: u8, c: u8, d: Option<u8>) -> (r: Vec<u8>)
    ensures
        r@ == match d {
            Some(x) => seq![a, b, c, x],
            None => seq![a, b, c],
        },
{
    let mut v: Vec<u8> = Vec::new();
    v.push(a);
    v.push(b);
    v.push(c);
    match d {
        Some(x) => {
            v.push(x);
            proof {
                assert(v@ =~= seq![a, b, c, x]);
            }
        },
        None => {
            proof {
                assert(v@ =~= seq![a, b, c]);
            }
        },
    }
    v
}

pub open spec fn key_sub() -> Seq<u8> {
    seq![0x73u8, 0x75u8, 0x62u8]
}

pub open spec fn key_iat() -> Seq<u8> {
    seq![0x69u8, 0x61u8, 0x74u8]
}

pub open spec fn key_exp() -> Seq<u8> {
    seq![0x65u8, 0x78u8, 0x70u8]
}

pub open spec fn key_aud() -> Seq<u8> {
    seq![0x61u8, 0x75u8, 0x64u8]
}

/// The expiry claim of a decoded token payload: present exactly when the
/// payload is a flat JSON record holding a string `sub`, an integer `iat`,
/// an integer `exp` and a string `aud`.
pub open spec fn spec_payload_exp(bytes: Seq<u8>) -> Option<u64> {
    match spec_parse_object(bytes) {
        None => None,
        Some(kvs) => {
            if (spec_lookup(kvs, key_sub()) matches Some(JsonView::Str(_))) && (spec_lookup(
                kvs,
                key_iat(),
            ) matches Some(JsonView::UInt(_))) && (spec_lookup(kvs, key_aud()) matches Some(
                JsonView::Str(_),
            )) {
                match spec_lookup(kvs, key_exp()) {
                    Some(JsonView::UInt(e)) => Some(e),
                    _ => None,
                }
            } else {
                None
            }
        },
    }
}

/// Reads the expiry claim from decoded payload bytes.
pub fn payload_exp(bytes: &[u8]) -> (r: Option<u64>)
    ensures
        match r {
            Some(e) => spec_payload_exp(bytes@) == Some(e),
            None => spec_payload_exp(bytes@) is None,
        },
{
    let kvs = parse_object(bytes);
    match kvs {
        None => None,
        Some(kvs) => {
            let k_sub = push4(0x73, 0x75, 0x62, None);
            let k_iat = push4(0x69, 0x61, 0x74, None);
            let k_exp = push4(0x65, 0x78, 0x70, None);
            let k_aud = push4(0x61, 0x75, 0x64, None);
            let sub_ok = match lookup(&kvs, k_sub.as_slice()) {
                Some(JsonValue::Str(_)) => true,
                _ => false,
            };
            let iat_ok = match lookup(&kvs, k_iat.as_slice()) {
                Some(JsonValue::UInt(_)) => true,
                _ => false,
            };
            let aud_ok = match lookup(&kvs, k_aud.as_slice()) {
                Some(JsonValue::Str(_)) => true,
                _ => false,
            };
            if !(sub_ok && iat_ok && aud_ok) {
                return None;
            }
            match lookup(&kvs, k_exp.as_slice()) {
                Some(JsonValue::UInt(e)) => Some(*e),
                _ => None,
            }
        },
    }
}

impl Token {
    /// The token's claimed expiry, or why it cannot be read: the payload
    /// segment, base64-decoded, read as a claims record.
    pub open spec fn spec_expiry(self) -> Result<u64, TokenError> {
        match spec_payload_part(self.access_jwt@) {
            None => Err(TokenError::MissingPayload),
            Some(part) => match b64_decode_of(part) {
                None => Err(TokenError::InvalidBase64),
                Some(bytes) => match spec_payload_exp(bytes) {
                    None => Err(TokenError::InvalidPayload),
                    Some(e) => Ok(e),
                },
            },
        }
    }

    /// Returns true if the token is expired, false otherwise.
    ///
    /// A token is usable only while `now` plus the safety margin still lies
    /// before the claimed expiry; at or past that point it is expired.
    pub fn is_expired(&self, now: u64) -> (r: Result<bool, TokenError>)
        requires
            now + TOKEN_EXPIRY_MARGIN_SECONDS <= u64::MAX,
        ensures
            match r {
                Ok(b) => self.spec_expiry() matches Ok(exp) && b == (now
                    + TOKEN_EXPIRY_MARGIN_SECONDS >= exp),
                Err(e) => self.spec_expiry() == Err::<u64, TokenError>(e),
            },
    {
        let part = payload_part(self.access_jwt.as_str());
        match part {
            None => Err(TokenError::MissingPayload),
            Some(part) => {
                let bytes = b64_decode(part);
                match bytes {
                    None => Err(TokenError::InvalidBase64),
                    Some(bytes) => {
                        let exp = payload_exp(bytes.as_slice());
                        match exp {
                            None => Err(TokenError::InvalidPayload),
                            Some(exp) => Ok(now + TOKEN_EXPIRY_MARGIN_SECONDS >= exp),
                        }
                    },
                }
            },
        }
    }

    /// The token in log-safe form: the handle in full, each credential cut
    /// to at most its first five characters, so logs never leak a whole
    /// credential.
    pub fn display_string(&self) -> (r: String)
        ensures
            r@ == "Token [Handle: "@ + self.handle@ + ", AccessJWT: "@ + spec_prefix5(
                self.access_jwt@,
            ) + ", RefreshJWT: "@ + spec_prefix5(self.refresh_jwt@) + "]"@,
    {
        let mut out = String::new();
        out.append("Token [Handle: ");
        out.append(self.handle.as_str());
        out.append(", AccessJWT: ");
        push_prefix5(&mut out, self.access_jwt.as_str());
        out.append(", RefreshJWT: ");
        push_prefix5(&mut out, self.refresh_jwt.as_str());
        out.append("]");
        proof {
            assert(out@ =~= "Token [Handle: "@ + self.handle@ + ", AccessJWT: "@ + spec_prefix5(
                self.access_jwt@,
            ) + ", RefreshJWT: "@ + spec_prefix5(self.refresh_jwt@) + "]"@);
        }
        out
    }

    /// Applies the outcome of a refresh call: a new token replaces this one
    /// whole; a failed refresh leaves it exactly as it was.
    pub fn apply_refresh(&mut self, outcome: Option<Token>) -> (r: bool)
        ensures
            match outcome {
                Some(t) => *final(self) == t && r,
                None => *final(self) == *old(self) && !r,
            },
    {
        match outcome {
            Some(t) => {
                *self = t;
                true
            },
            None => false,
        }
    }
}

/// At most the first five characters of a credential.
pub open spec fn spec_prefix5(s: Seq<char>) -> Seq<char> {
    if s.len() <= 5 {
        s
    } else {
        s.take(5)
    }
}

fn push_prefix5(out: &mut String, s: &str)
    ensures
        final(out)@ == old(out)@ + spec_prefix5(s@),
{
    let n = s.unicode_len();
    if n <= 5 {
        out.append(s);
    } else {
        let part = s.substring_char(0, 5);
        out.append(part);
        proof {
            assert(s@.subrange(0, 5) =~= s@.take(5));
        }
    }
}

pub open spec fn key_handle() -> Seq<u8> {
    seq![0x68u8, 0x61u8, 0x6eu8, 0x64u8, 0x6cu8, 0x65u8]
}

pub open spec fn key_access_jwt() -> Seq<u8> {
    seq![0x61u8, 0x63u8, 0x63u8, 0x65u8, 0x73u8, 0x73u8, 0x4au8, 0x77u8, 0x74u8]
}

pub open spec fn key_refresh_jwt() -> Seq<u8> {
    seq![0x72u8, 0x65u8, 0x66u8, 0x72u8, 0x65u8, 0x73u8, 0x68u8, 0x4au8, 0x77u8, 0x74u8]
}

/// The three credential fields of a session record: present exactly when
/// the input is a flat JSON record with string members `handle`,
/// `accessJwt` and `refreshJwt`, whatever else it carries.
pub open spec fn spec_token_fields(bytes: Seq<u8>) -> Option<(Seq<u8>, Seq<u8>, Seq<u8>)> {
    match spec_parse_object(bytes) {
        None => None,
        Some(kvs) => {
            match (
                spec_lookup(kvs, key_handle()),
                spec_lookup(kvs, key_access_jwt()),
                spec_lookup(kvs, key_refresh_jwt()),
            ) {
                (
                    Some(JsonView::Str(h)),
                    Some(JsonView::Str(a)),
                    Some(JsonView::Str(r)),
                ) => Some((h, a, r)),
                _ => None,
            }
        },
    }
}

fn key_handle_exec() -> (r: Vec<u8>)
    ensures
        r@ == key_handle(),
{
    let mut v: Vec<u8> = Vec::new();
    v.push(0x68);
    v.push(0x61);
    v.push(0x6e);
    v.push(0x64);
    v.push(0x6c);
    v.push(0x65);
    proof {
        assert(v@ =~= key_handle());
    }
    v
}

fn key_access_jwt_exec() -> (r: Vec<u8>)
    ensures
        r@ == key_access_jwt(),
{
    let mut v: Vec<u8> = Vec::new();
    v.push(0x61);
    v.push(0x63);
    v.push(0x63);
    v.push(0x65);
    v.push(0x73);
    v.push(0x73);
    v.push(0x4a);
    v.push(0x77);
    v.push(0x74);
    proof {
        assert(v@ =~= key_access_jwt());
    }
    v
}

fn key_refresh_jwt_exec() -> (r: Vec<u8>)
    ensures
        r@ == key_refresh_jwt(),
{
    let mut v: Vec<u8> = Vec::new();
    v.push(0x72);
    v.push(0x65);
    v.push(0x66);
    v.push(0x72);
    v.push(0x65);
    v.push(0x73);
    v.push(0x68);
    v.push(0x4a);
    v.push(0x77);
    v.push(0x74);
    proof {
        assert(v@ =~= key_refresh_jwt());
    }
    v
}

impl Token {
    /// Reads a token from a session record. Members beyond the three
    /// credential fields are ignored, as a platform may add any number of
    /// them.
    pub fn from_json(s: &str) -> (r: Result<Token, TokenError>)
        ensures
            match r {
                Ok(t) => spec_token_fields(s.spec_bytes()) matches Some((h, a, rf))
                    && encode_utf8(t.handle@) == h && encode_utf8(t.access_jwt@) == a
                    && encode_utf8(t.refresh_jwt@) == rf,
                Err(e) => e == TokenError::InvalidPayload && (spec_token_fields(s.spec_bytes())
                    matches Some((h, a, rf)) ==> !(valid_utf8(h) && valid_utf8(a) && valid_utf8(
                    rf,
                ))),
            },
    {
        let bytes = s.as_bytes();
        let kvs = parse_object(bytes);
        match kvs {
            None => Err(TokenError::InvalidPayload),
            Some(kvs) => {
                let k_handle = key_handle_exec();
                let k_access = key_access_jwt_exec();
                let k_refresh = key_refresh_jwt_exec();
                let handle = match lookup(&kvs, k_handle.as_slice()) {
                    Some(JsonValue::Str(h)) => h,
                    _ => {
                        return Err(TokenError::InvalidPayload);
                    },
                };
                let access = match lookup(&kvs, k_access.as_slice()) {
                    Some(JsonValue::Str(a)) => a,
                    _ => {
                        return Err(TokenError::InvalidPayload);
                    },
                };
                let refresh = match lookup(&kvs, k_refresh.as_slice()) {
                    Some(JsonValue::Str(rf)) => rf,
                    _ => {
                        return Err(TokenError::InvalidPayload);
                    },
                };
                let handle_str = match utf8_to_str(handle.as_slice()) {
                    Some(x) => x,
                    None => {
                        return Err(TokenError::InvalidPayload);
                    },
                };
                let access_str = match utf8_to_str(access.as_slice()) {
                    Some(x) => x,
                    None => {
                        return Err(TokenError::InvalidPayload);
                    },
                };
                let refresh_str = match utf8_to_str(refresh.as_slice()) {
                    Some(x) => x,
                    None => {
                        return Err(TokenError::InvalidPayload);
                    },
                };
                Ok(
                    Token {
                        handle: String::from_str(handle_str),
                        access_jwt: String::from_str(access_str),
                        refresh_jwt: String::from_str(refresh_str),
                    },
                )
            },
        }
    }
}

} // verus!
