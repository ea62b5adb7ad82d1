use newsbot::atproto::{
    ATProtoRepoCreateRecord, ATProtoServerCreateSession, ATprotoRepoCreateRecordEmbed,
    ATprotoRepoCreateRecordRecord, Blob,
};

// 2024-12-30T13:45:00 UTC as an epoch second.
const CREATED_AT: i64 = 1735566300;

#[test]
fn test_atproto_server_create_session_serialization() {
    let session = ATProtoServerCreateSession {
        identifier: "user".to_string(),
        password: "pass".to_string(),
    };

    let json = session.to_json();

    assert_eq!(json, br#"{"identifier":"user","password":"pass"}"#.to_vec());
}

#[test]
fn test_atproto_repo_create_record_record_no_embed_serialization() {
    let session = ATProtoRepoCreateRecord::new(
        "nuculabs.dev",
        ATprotoRepoCreateRecordRecord::new("some post", CREATED_AT, None),
    );

    let json = session.to_json();

    assert_eq!(
        json,
        br#"{"repo":"nuculabs.dev","collection":"app.bsky.feed.post","record":{"text":"some post","createdAt":"2024-12-30T13:45:00+00:00"}}"#.to_vec()
    );
}

#[test]
fn test_atproto_repo_create_record_record_embed_serialization() {
    let session = ATProtoRepoCreateRecord::new(
        "nuculabs.dev",
        ATprotoRepoCreateRecordRecord::new(
            "some post",
            CREATED_AT,
            Some(ATprotoRepoCreateRecordEmbed::new(
                "https://some-news.ro/some",
                "Some very important news",
                "The description of the news",
                None,
            )),
        ),
    );

    let json = session.to_json();

    assert_eq!(
        json,
        br#"{"repo":"nuculabs.dev","collection":"app.bsky.feed.post","record":{"text":"some post","createdAt":"2024-12-30T13:45:00+00:00","embed":{"$type":"app.bsky.embed.external","external":{"uri":"https://some-news.ro/some","title":"Some very important news","description":"The description of the news"}}}}"#.to_vec()
    );
}

#[test]
fn test_atproto_repo_create_record_record_embed_and_thumb_serialization() {
    let session = ATProtoRepoCreateRecord::new(
        "nuculabs.dev",
        ATprotoRepoCreateRecordRecord::new(
            "some post",
            CREATED_AT,
            Some(ATprotoRepoCreateRecordEmbed::new(
                "https://some-news.ro/some",
                "Some very important news",
                "The description of the news",
                Some(Blob::new(
                    "bafkreiass5vjx467rdtm77ey4kkuz667wldaffq7z3nmvqxm2bwk3hiemm",
                    "image/jpeg",
                    122,
                )),
            )),
        ),
    );

    let json = session.to_json();

    assert_eq!(
        json,
        br#"{"repo":"nuculabs.dev","collection":"app.bsky.feed.post","record":{"text":"some post","createdAt":"2024-12-30T13:45:00+00:00","embed":{"$type":"app.bsky.embed.external","external":{"uri":"https://some-news.ro/some","title":"Some very important news","description":"The description of the news","thumb":{"$type":"blob","ref":{"$link":"bafkreiass5vjx467rdtm77ey4kkuz667wldaffq7z3nmvqxm2bwk3hiemm"},"mimeType":"image/jpeg","size":122}}}}}"#.to_vec()
    );
}

#[test]
fn record_json_escapes_special_characters() {
    let session = ATProtoServerCreateSession {
        identifier: "a\"b\\c".to_string(),
        password: "line\nbreak\ttab".to_string(),
    };

    let json = session.to_json();

    assert_eq!(
        json,
        br#"{"identifier":"a\"b\\c","password":"line\nbreak\ttab"}"#.to_vec()
    );
}

#[test]
fn blob_serializes_negative_size() {
    let blob = Blob::new("ref", "image/png", -7);

    let json = blob.to_json();

    assert_eq!(
        json,
        br#"{"$type":"blob","ref":{"$link":"ref"},"mimeType":"image/png","size":-7}"#.to_vec()
    );
}
