use newsbot::atproto::Blob;
use newsbot::bluesky::{bluesky_publish_record, plan_authenticated_call, AuthPlan, BlobOutcome};
use newsbot::codec::{decode_post, encode_post};
use newsbot::orchestrate::{ingest_post, on_create_group_result, plan_consume_step, should_continue};
use newsbot::post::NewsPost;
use newsbot::scrape::filter_complete;
use newsbot::store::{QueueError, ReadError, RedisService};
use newsbot::token::Token;

use base64::Engine;

fn post_titled(title: &str) -> NewsPost {
    NewsPost {
        image: None,
        title: Some(title.to_string()),
        summary: Some(String::from("s")),
        link: Some(String::from("l")),
        author: Some(String::from("a")),
    }
}

#[test]
fn is_complete_requires_title_summary_and_link() {
    let complete = post_titled("t");
    assert!(complete.is_complete());

    let mut no_title = post_titled("t");
    no_title.title = None;
    assert!(!no_title.is_complete());

    let mut no_summary = post_titled("t");
    no_summary.summary = None;
    assert!(!no_summary.is_complete());

    let mut no_link = post_titled("t");
    no_link.link = None;
    assert!(!no_link.is_complete());

    let mut bare = post_titled("t");
    bare.image = None;
    bare.author = None;
    assert!(bare.is_complete());
}

#[test]
fn codec_round_trips_posts() {
    let post = NewsPost {
        image: Some("https://ex.com/ä-☕.jpg".to_string()),
        title: Some("Ünïcodé titlé".to_string()),
        summary: None,
        link: Some(String::new()),
        author: None,
    };

    let encoded = encode_post(&post);
    let decoded = decode_post(&encoded).unwrap();

    assert_eq!(decoded, post);
}

#[test]
fn codec_rejects_junk() {
    assert!(decode_post(b"definitely not a post").is_none());
    assert!(decode_post(b"").is_none());
}

#[test]
fn ingest_deduplicates_across_scrape_cycles() {
    let mut service = RedisService::new();
    let post = post_titled("breaking news");

    assert!(ingest_post(&mut service, "posts", &post, 3600, 100));
    // The same title in a later cycle, while the mark lives: dropped.
    assert!(!ingest_post(&mut service, "posts", &post, 3600, 200));
    // After the mark expired, the title may be re-ingested.
    assert!(ingest_post(&mut service, "posts", &post, 3600, 3700));

    // Only the two successful ingests reached the stream.
    service.create_group("posts", "group", 0).unwrap();
    assert!(service.read_stream("posts", "group", "c", 10).is_ok());
    assert!(service.read_stream("posts", "group", "c", 10).is_ok());
    assert_eq!(
        service.read_stream("posts", "group", "c", 10),
        Err(ReadError::NoData)
    );
}

#[test]
fn ingest_drops_incomplete_posts() {
    let mut service = RedisService::new();
    let mut post = post_titled("t");
    post.summary = None;

    assert!(!ingest_post(&mut service, "posts", &post, 3600, 100));
    assert!(service.streams.is_empty());
}

#[test]
fn filter_complete_keeps_only_complete_posts() {
    let mut incomplete = post_titled("b");
    incomplete.link = None;
    let posts = vec![post_titled("a"), incomplete, post_titled("c")];

    let complete = filter_complete(&posts);

    assert_eq!(complete.len(), 2);
    assert_eq!(complete[0].title, Some("a".to_string()));
    assert_eq!(complete[1].title, Some("c".to_string()));
}

#[test]
fn consume_plan_always_paces() {
    let ok: Result<NewsPost, ReadError> = Ok(post_titled("t"));
    let plan = plan_consume_step(&ok);
    assert!(plan.publish);
    assert!(plan.pace);

    let err: Result<NewsPost, ReadError> = Err(ReadError::NoData);
    let plan = plan_consume_step(&err);
    assert!(!plan.publish);
    assert!(plan.pace);
}

#[test]
fn cancellation_stops_new_iterations() {
    assert!(should_continue(false));
    assert!(!should_continue(true));
}

#[test]
fn startup_warns_on_group_creation_errors_and_goes_on() {
    assert!(!on_create_group_result(&Ok(())));
    assert!(on_create_group_result(&Err(QueueError::GroupAlreadyExists)));
    assert!(on_create_group_result(&Err(QueueError::NoSuchStream)));
}

#[test]
fn bluesky_record_downgrades_on_upload_failure() {
    let post = post_titled("headline");

    let (record, warnings) =
        bluesky_publish_record(&post, "bot.example", 1735566300, BlobOutcome::Failed);

    assert_eq!(warnings, 1);
    assert_eq!(record.repo, "bot.example");
    assert_eq!(record.record.text, "headline");
    let embed = record.record.embed.as_ref().unwrap();
    assert!(embed.external.thumb.is_none());
}

#[test]
fn bluesky_record_attaches_uploaded_thumbnail() {
    let post = post_titled("headline");
    let blob = Blob::new("ref123", "image/jpeg", 9);

    let (record, warnings) =
        bluesky_publish_record(&post, "bot.example", 1735566300, BlobOutcome::Uploaded(blob));

    assert_eq!(warnings, 0);
    let embed = record.record.embed.as_ref().unwrap();
    let thumb = embed.external.thumb.as_ref().unwrap();
    assert_eq!(thumb.link_ref._link, "ref123");
}

#[test]
fn authenticated_calls_check_the_token_first() {
    let header = "eyJ0eXAiOiJhdCtqd3QiLCJhbGciOiJFUzI1NksifQ";
    let now: u64 = 1735566300;

    let fresh_claims = format!(r#"{{"sub":"","iat":0,"exp":{},"aud":""}}"#, now + 100_000);
    let fresh = Token {
        handle: String::new(),
        access_jwt: format!(
            "{}.{}.sig",
            header,
            base64::prelude::BASE64_STANDARD_NO_PAD.encode(fresh_claims)
        ),
        refresh_jwt: String::new(),
    };
    assert_eq!(
        plan_authenticated_call(&fresh, now),
        Ok(AuthPlan::UseCurrent)
    );

    let stale_claims = format!(r#"{{"sub":"","iat":0,"exp":{},"aud":""}}"#, now - 1);
    let stale = Token {
        handle: String::new(),
        access_jwt: format!(
            "{}.{}.sig",
            header,
            base64::prelude::BASE64_STANDARD_NO_PAD.encode(stale_claims)
        ),
        refresh_jwt: String::new(),
    };
    assert_eq!(
        plan_authenticated_call(&stale, now),
        Ok(AuthPlan::RefreshFirst)
    );
}
