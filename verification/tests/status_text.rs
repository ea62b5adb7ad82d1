use newsbot::mastodon::build_status_text;
use newsbot::post::NewsPost;
use newsbot::publish::{
    interpret_publish_status, mastodon_publish_request, MediaOutcome, PublishError,
};

fn complete_post() -> NewsPost {
    NewsPost {
        image: Some(String::from("https://ex.com/img.jpg")),
        title: Some(String::from("Hello")),
        summary: Some(String::from("World")),
        link: Some(String::from("https://ex.com/p")),
        author: Some(String::from("A")),
    }
}

#[test]
fn truncation_never_cuts_the_link() {
    // A 500-character budget, a 600-character title, a 20-character link.
    let title: String = std::iter::repeat('a').take(600).collect();
    let link = "https://ex.com/12345";
    assert_eq!(link.chars().count(), 20);

    let status = build_status_text(&title, "ignored summary", link);

    assert!(status.ends_with(link));
    assert!(status.chars().count() <= 500 + 20);
    // Exactly: the title fills the budget minus the link and separators.
    let expected_title: String = std::iter::repeat('a').take(478).collect();
    assert_eq!(status, format!("{}\n{}", expected_title, link));
}

#[test]
fn short_title_and_summary_fit_whole() {
    let status = build_status_text("Hello", "World", "https://l");

    assert_eq!(status, "Hello\nWorld\nhttps://l");
}

#[test]
fn summary_is_dropped_before_the_link() {
    // The title eats the whole budget, so the summary is omitted but the
    // link still closes the status.
    let title: String = std::iter::repeat('t').take(700).collect();
    let summary: String = std::iter::repeat('z').take(100).collect();
    let link = "https://ex.com/12345";

    let status = build_status_text(&title, &summary, link);

    assert!(status.ends_with(link));
    assert!(!status.contains('z'));
}

#[test]
fn oversized_link_is_still_whole() {
    let link: String = std::iter::repeat('l').take(600).collect();

    let status = build_status_text("title", "summary", &link);

    assert_eq!(status, link);
}

#[test]
fn media_failure_still_posts_text_only_with_one_warning() {
    let post = complete_post();

    let (request, warnings) = mastodon_publish_request(&post, MediaOutcome::Failed);

    assert_eq!(warnings, 1);
    assert!(request.media_ids.is_empty());
    assert_eq!(request.status, "Hello\nWorld\nhttps://ex.com/p");
    assert_eq!(request.language, "ro");
    assert_eq!(request.visibility, "public");
}

#[test]
fn media_success_attaches_the_id() {
    let post = complete_post();

    let (request, warnings) =
        mastodon_publish_request(&post, MediaOutcome::Uploaded("42".to_string()));

    assert_eq!(warnings, 0);
    assert_eq!(request.media_ids, vec!["42".to_string()]);
}

#[test]
fn post_without_image_needs_no_media_and_no_warning() {
    let post = complete_post();

    let (request, warnings) = mastodon_publish_request(&post, MediaOutcome::NoImage);

    assert_eq!(warnings, 0);
    assert!(request.media_ids.is_empty());
}

#[test]
fn status_request_serializes_exactly() {
    let post = complete_post();
    let (mut request, _) = mastodon_publish_request(&post, MediaOutcome::NoImage);
    request.media_ids.push("1".to_string());
    request.media_ids.push("2".to_string());

    let json = request.to_json();

    assert_eq!(
        json,
        br#"{"status":"Hello\nWorld\nhttps://ex.com/p","language":"ro","visibility":"public","media_ids":["1","2"]}"#.to_vec()
    );
}

#[test]
fn non_success_status_aborts_the_attempt() {
    assert_eq!(interpret_publish_status(200), Ok(()));
    assert_eq!(
        interpret_publish_status(401),
        Err(PublishError::Status(401))
    );
    assert_eq!(
        interpret_publish_status(503),
        Err(PublishError::Status(503))
    );
}
