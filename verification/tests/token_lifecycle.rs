use base64::Engine;
use newsbot::token::{Token, TokenError};

// A mock clock value: 2024-12-30T13:45:00 UTC.
const NOW: u64 = 1735566300;

const HEADER: &str = "eyJ0eXAiOiJhdCtqd3QiLCJhbGciOiJFUzI1NksifQ";
const SIGNATURE: &str =
    "oWhKfhGWv6omS3oFQ21GX29uzsd5WrfPJyotJMCQ8V44GF1UN2et7sf_JKVB5jkSuJa6kVWERGuKVGgj8AWScA";

fn empty_token() -> Token {
    Token {
        handle: String::new(),
        access_jwt: String::new(),
        refresh_jwt: String::new(),
    }
}

#[test]
fn test_is_expired_true() {
    // The serialized claims record with an expiry at the epoch.
    let json_data = r#"{"sub":"","iat":0,"exp":0,"aud":""}"#;
    let base64_data = base64::prelude::BASE64_STANDARD_NO_PAD.encode(json_data);

    let mut token = empty_token();
    token.access_jwt = format!("{}.{}.{}", HEADER, base64_data, SIGNATURE);

    let result = token.is_expired(NOW).unwrap();

    assert_eq!(result, true);
}

#[test]
fn test_is_expired_false() {
    // An expiry comfortably past the clock: now + 100 000 seconds.
    let json_data = r#"{"sub":"","iat":0,"exp":1735666300,"aud":""}"#;
    let base64_data = base64::prelude::BASE64_STANDARD_NO_PAD.encode(json_data);

    let mut token = empty_token();
    token.access_jwt = format!("{}.{}.{}", HEADER, base64_data, SIGNATURE);

    let result = token.is_expired(NOW).unwrap();

    assert_eq!(result, false);
}

#[test]
fn test_token_deserialize() {
    let data = r#"
        {
            "handle": "cool-bot.bsky.social",
            "email": "cool@gmail.com",
            "emailConfirmed": true,
            "emailAuthFactor": false,
            "accessJwt": "ein.zwei.drei",
            "refreshJwt": "fier.funf.sechs",
            "active": true
        }
"#;

    let token: Token = Token::from_json(data).unwrap();

    assert_eq!(
        token,
        Token {
            handle: "cool-bot.bsky.social".to_string(),
            access_jwt: "ein.zwei.drei".to_string(),
            refresh_jwt: "fier.funf.sechs".to_string(),
        }
    );
}

#[test]
fn expiry_boundary_one_second_past_is_expired() {
    // An expiry one second before the clock is already expired.
    let json_data = format!(
        r#"{{"sub":"","iat":0,"exp":{},"aud":""}}"#,
        NOW - 1
    );
    let base64_data = base64::prelude::BASE64_STANDARD_NO_PAD.encode(json_data);
    let mut token = empty_token();
    token.access_jwt = format!("{}.{}.{}", HEADER, base64_data, SIGNATURE);

    assert_eq!(token.is_expired(NOW).unwrap(), true);
}

#[test]
fn expiry_boundary_thousand_seconds_ahead_is_usable() {
    let json_data = format!(
        r#"{{"sub":"","iat":0,"exp":{},"aud":""}}"#,
        NOW + 1000
    );
    let base64_data = base64::prelude::BASE64_STANDARD_NO_PAD.encode(json_data);
    let mut token = empty_token();
    token.access_jwt = format!("{}.{}.{}", HEADER, base64_data, SIGNATURE);

    assert_eq!(token.is_expired(NOW).unwrap(), false);
}

#[test]
fn token_without_payload_segment_is_rejected() {
    let mut token = empty_token();
    token.access_jwt = "credential-without-dots".to_string();

    assert_eq!(token.is_expired(NOW), Err(TokenError::MissingPayload));
}

#[test]
fn token_with_bad_base64_is_rejected() {
    let mut token = empty_token();
    token.access_jwt = "head.???.sig".to_string();

    assert_eq!(token.is_expired(NOW), Err(TokenError::InvalidBase64));
}

#[test]
fn token_with_claims_missing_is_rejected() {
    let json_data = r#"{"sub":"","iat":0,"aud":""}"#;
    let base64_data = base64::prelude::BASE64_STANDARD_NO_PAD.encode(json_data);
    let mut token = empty_token();
    token.access_jwt = format!("{}.{}.{}", HEADER, base64_data, SIGNATURE);

    assert_eq!(token.is_expired(NOW), Err(TokenError::InvalidPayload));
}

#[test]
fn refresh_failure_keeps_the_prior_token() {
    let mut token = empty_token();
    token.access_jwt = "a.b.c".to_string();

    let refreshed = token.apply_refresh(None);

    assert!(!refreshed);
    assert_eq!(token.access_jwt, "a.b.c");
}

#[test]
fn refresh_success_replaces_the_whole_token() {
    let mut token = empty_token();
    token.access_jwt = "a.b.c".to_string();

    let refreshed = token.apply_refresh(Some(Token {
        handle: "h".to_string(),
        access_jwt: "x.y.z".to_string(),
        refresh_jwt: "r.s.t".to_string(),
    }));

    assert!(refreshed);
    assert_eq!(token.handle, "h");
    assert_eq!(token.access_jwt, "x.y.z");
    assert_eq!(token.refresh_jwt, "r.s.t");
}

#[test]
fn display_string_redacts_credentials() {
    let token = Token {
        handle: "bot.example".to_string(),
        access_jwt: "aaaaaaaaaa.b.c".to_string(),
        refresh_jwt: "dd".to_string(),
    };

    assert_eq!(
        token.display_string(),
        "Token [Handle: bot.example, AccessJWT: aaaaa, RefreshJWT: dd]"
    );
}
