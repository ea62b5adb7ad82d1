use newsbot::scrape::{
    assemble_article_post, assemble_authors, assemble_headline_post, assemble_review_post,
};
use newsbot::text::{join_with, remove_nbsp, trim};

#[test]
fn trim_strips_surrounding_whitespace() {
    assert_eq!(trim("  a title\n"), "a title");
    assert_eq!(trim("no-change"), "no-change");
    assert_eq!(trim(" \t\r\n "), "");
    assert_eq!(trim(""), "");
}

#[test]
fn join_with_separates_items() {
    let items = vec!["a".to_string(), "b".to_string(), "c".to_string()];
    assert_eq!(join_with(&items, ", "), "a, b, c");
    assert_eq!(join_with(&vec!["solo".to_string()], ", "), "solo");
    assert_eq!(join_with(&Vec::new(), ", "), "");
}

#[test]
fn remove_nbsp_drops_every_entity() {
    assert_eq!(remove_nbsp("a&nbsp;b&nbsp;c"), "abc");
    assert_eq!(remove_nbsp("&nbsp;&nbsp;"), "");
    assert_eq!(remove_nbsp("plain"), "plain");
    assert_eq!(remove_nbsp("&nbsp"), "&nbsp");
}

#[test]
fn authors_are_cleaned_joined_or_defaulted() {
    let authors = vec![
        " Ana ".to_string(),
        "".to_string(),
        "\n".to_string(),
        "Bogdan".to_string(),
    ];
    assert_eq!(assemble_authors(&authors, "Site"), "Ana, Bogdan");
    assert_eq!(assemble_authors(&Vec::new(), "Site"), "Site");
    assert_eq!(
        assemble_authors(&vec!["  ".to_string()], "Site"),
        "Site"
    );
}

#[test]
fn headline_post_trims_title_and_fills_defaults() {
    let post = assemble_headline_post(
        Some(" Title \n".to_string()),
        Some("https://l".to_string()),
        None,
        "HotNews",
    );

    assert_eq!(post.title, Some("Title".to_string()));
    assert_eq!(post.link, Some("https://l".to_string()));
    assert_eq!(post.image, None);
    assert_eq!(post.summary, Some(String::new()));
    assert_eq!(post.author, Some("HotNews".to_string()));
}

#[test]
fn article_post_keeps_excerpt_only_with_content() {
    let with_text = assemble_article_post(
        Some("T".to_string()),
        Some("l".to_string()),
        None,
        &vec!["A".to_string()],
        Some("  an excerpt ".to_string()),
        "Site",
    );
    assert_eq!(with_text.summary, Some("an excerpt".to_string()));
    assert_eq!(with_text.author, Some("A".to_string()));

    let blank = assemble_article_post(
        Some("T".to_string()),
        Some("l".to_string()),
        None,
        &Vec::new(),
        Some("  \n ".to_string()),
        "Site",
    );
    assert_eq!(blank.summary, None);
    assert_eq!(blank.author, Some("Site".to_string()));
}

#[test]
fn review_post_cleans_the_summary() {
    let post = assemble_review_post(
        Some("T".to_string()),
        Some("l".to_string()),
        Some("i".to_string()),
        Some(" before&nbsp;after ".to_string()),
        Some("Author".to_string()),
    );

    assert_eq!(post.summary, Some("beforeafter".to_string()));
    assert_eq!(post.title, Some("T".to_string()));
}
