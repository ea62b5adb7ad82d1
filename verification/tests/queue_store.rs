use newsbot::post::NewsPost;
use newsbot::store::{fingerprint, interpret_seen_lookup, QueueError, ReadError, RedisService, StoreUnavailable, StreamEntry};

fn sample_post() -> NewsPost {
    NewsPost {
        image: Some(String::from("i")),
        title: Some(String::from("t")),
        summary: Some(String::from("s")),
        link: Some(String::from("l")),
        author: Some(String::from("a")),
    }
}

#[test]
fn publish_then_consume_round_trip() {
    let mut service = RedisService::new();
    let post = sample_post();

    assert!(service.publish("posts", &post));
    service.create_group("posts", "group", 0).unwrap();

    let result = service
        .read_stream("posts", "group", "consumer", 10_000)
        .unwrap();

    assert_eq!(result, post);
}

#[test]
fn consumption_order_matches_append_order() {
    let mut service = RedisService::new();
    let mut first = sample_post();
    first.title = Some(String::from("first"));
    let mut second = sample_post();
    second.title = Some(String::from("second"));

    assert!(service.publish("posts", &first));
    assert!(service.publish("posts", &second));
    service.create_group("posts", "group", 0).unwrap();

    let got1 = service.read_stream("posts", "group", "c", 10).unwrap();
    let got2 = service.read_stream("posts", "group", "c", 10).unwrap();

    assert_eq!(got1, first);
    assert_eq!(got2, second);
}

#[test]
fn read_after_draining_reports_no_data() {
    let mut service = RedisService::new();
    assert!(service.publish("posts", &sample_post()));
    service.create_group("posts", "group", 0).unwrap();

    let _ = service.read_stream("posts", "group", "c", 10).unwrap();
    let empty = service.read_stream("posts", "group", "c", 10);

    assert_eq!(empty, Err(ReadError::NoData));
}

#[test]
fn read_of_missing_stream_or_group_errors() {
    let mut service = RedisService::new();

    assert_eq!(
        service.read_stream("nothing", "group", "c", 10),
        Err(ReadError::NoSuchStream)
    );

    assert!(service.publish("posts", &sample_post()));
    assert_eq!(
        service.read_stream("posts", "group", "c", 10),
        Err(ReadError::NoSuchGroup)
    );
}

#[test]
fn create_group_on_missing_stream_errors() {
    let mut service = RedisService::new();

    assert_eq!(
        service.create_group("posts", "group", 0),
        Err(QueueError::NoSuchStream)
    );
}

#[test]
fn create_group_twice_is_nonfatal_and_reads_go_on() {
    let mut service = RedisService::new();
    let post = sample_post();
    assert!(service.publish("posts", &post));

    service.create_group("posts", "group", 0).unwrap();
    let again = service.create_group("posts", "group", 0);
    assert_eq!(again, Err(QueueError::GroupAlreadyExists));

    // The failed second creation changed nothing: the read proceeds.
    let result = service.read_stream("posts", "group", "c", 10).unwrap();
    assert_eq!(result, post);
}

#[test]
fn corrupt_payload_is_surfaced_and_consumed() {
    let mut service = RedisService::new();
    assert!(service.publish("posts", &sample_post()));
    service.create_group("posts", "group", 0).unwrap();
    let _ = service.read_stream("posts", "group", "c", 10).unwrap();

    // A payload that does not follow the frame, appended by hand.
    let id = service.streams[0].next_id;
    service.streams[0].entries.push(StreamEntry {
        id,
        payload: b"not a post".to_vec(),
    });
    service.streams[0].next_id = id + 1;

    assert_eq!(
        service.read_stream("posts", "group", "c", 10),
        Err(ReadError::Corrupt)
    );
    // The corrupt entry was still consumed; the loop moves on.
    assert_eq!(
        service.read_stream("posts", "group", "c", 10),
        Err(ReadError::NoData)
    );
}

#[test]
fn flag_key_is_seen_until_ttl_elapses() {
    let mut service = RedisService::new();

    assert!(!service.is_key_flagged("posts-t", 100));
    service.flag_key("posts-t", 10, 100);

    assert!(service.is_key_flagged("posts-t", 100));
    assert!(service.is_key_flagged("posts-t", 109));
    assert!(!service.is_key_flagged("posts-t", 110));
    assert!(!service.is_key_flagged("posts-t", 200));
}

#[test]
fn mark_post_seen_is_seen_until_ttl_elapses() {
    let mut service = RedisService::new();

    assert!(!service.is_post_seen("some title", 1000));
    service.mark_post_seen("some title", 60, 1000);

    assert!(service.is_post_seen("some title", 1000));
    assert!(service.is_post_seen("some title", 1059));
    assert!(!service.is_post_seen("some title", 1060));
    assert!(!service.is_post_seen("other title", 1000));
}

#[test]
fn remarking_extends_the_ttl() {
    let mut service = RedisService::new();
    service.mark_post_seen("t", 10, 100);
    service.mark_post_seen("t", 10, 105);

    assert!(service.is_post_seen("t", 114));
    assert!(!service.is_post_seen("t", 115));
}

#[test]
fn fingerprint_is_the_hex_digest_of_the_title() {
    assert_eq!(
        fingerprint("abc"),
        b"900150983cd24fb0d6963f7d28e17f72".to_vec()
    );
}

#[test]
fn dedup_lookup_fails_open_on_store_outage() {
    assert!(interpret_seen_lookup(&Ok(true)));
    assert!(!interpret_seen_lookup(&Ok(false)));
    assert!(!interpret_seen_lookup(&Err(StoreUnavailable)));
}
