//! The scrape side's own logic: its configuration values and the
//! completeness filter applied to every scrape result before it reaches the
//! producer. Fetching pages and extracting posts from markup is a
//! collaborator's work and happens outside the library.

use vstd::prelude::*;
use vstd::string::{StringExecFns, StrSliceExecFns};

use crate::post::{opt_view, NewsPost};
use crate::text::{join_with, remove_nbsp, spec_join, spec_remove_nbsp, spec_trim, trim};

verus! {

/// The scraper process's configuration.
#[derive(Debug)]
pub struct CliArgs {
    /// Queue store connection string.
    pub redis_connection_string: String,
    /// Stream name.
    pub redis_stream_name: String,
    /// The scraping interval in minutes.
    pub scrape_interval_minutes: u32,
    /// Scrape the maximum posts.
    pub max_posts_per_run: u64,
}

/// Completeness, as a predicate on posts.
pub open spec fn complete_pred() -> spec_fn(NewsPost) -> bool {
    |p: NewsPost| p.spec_is_complete()
}

/// The complete posts of a scrape result, in their incoming order: only
/// these may be handed to the producer.
pub fn filter_complete(posts: &Vec<NewsPost>) -> (r: Vec<NewsPost>)
    ensures
        r@ == posts@.filter(complete_pred()),
{
    let ghost pred = complete_pred();
    let mut out: Vec<NewsPost> = Vec::new();
    let mut i: usize = 0;
    proof {
        reveal(Seq::filter);
        assert(posts@.take(0).filter(pred) =~= Seq::<NewsPost>::empty());
    }
    while i < posts.len()
        invariant
            i <= posts@.len(),
            out@ == posts@.take(i as int).filter(complete_pred()),
        decreases posts@.len() - i,
    {
        let complete = posts[i].is_complete();
        if complete {
            out.push(posts[i].clone());
        }
        proof {
            reveal(Seq::filter);
            let t1 = posts@.take(i + 1);
            assert(t1.drop_last() =~= posts@.take(i as int));
            assert(t1.last() == posts@[i as int]);
            assert(complete_pred()(posts@[i as int]) == complete);
            assert(t1.filter(complete_pred()) == if complete {
                posts@.take(i as int).filter(complete_pred()).push(posts@[i as int])
            } else {
                posts@.take(i as int).filter(complete_pred())
            });
        }
        i += 1;
    }
    proof {
        assert(posts@.take(posts@.len() as int) =~= posts@);
    }
    out
}

/// A non-empty text fragment.
pub open spec fn nonempty_pred() -> spec_fn(Seq<char>) -> bool {
    |t: Seq<char>| t.len() > 0
}

/// The author fragments trimmed, with empty ones dropped.
pub open spec fn spec_cleaned_authors(authors: Seq<Seq<char>>) -> Seq<Seq<char>> {
    authors.map_values(|t: Seq<char>| spec_trim(t)).filter(nonempty_pred())
}

/// The author line of an article card: the non-empty trimmed author
/// fragments joined with a comma, or the site's fixed author when there are
/// none.
pub fn assemble_authors(authors: &Vec<String>, default_author: &str) -> (r: String)
    ensures
        ({
            let cleaned = spec_cleaned_authors(authors@.map_values(|s: String| s@));
            r@ == if cleaned.len() == 0 {
                default_author@
            } else {
                spec_join(cleaned, ", "@)
            }
        }),
{
    let ghost raw = authors@.map_values(|s: String| s@).map_values(|t: Seq<char>| spec_trim(t));
    let mut cleaned: Vec<String> = Vec::new();
    let mut i: usize = 0;
    proof {
        reveal(Seq::filter);
        assert(raw.take(0).filter(nonempty_pred()) =~= Seq::<Seq<char>>::empty());
        assert(cleaned@.map_values(|s: String| s@) =~= Seq::<Seq<char>>::empty());
    }
    while i < authors.len()
        invariant
            i <= authors@.len(),
            raw == authors@.map_values(|s: String| s@).map_values(|t: Seq<char>| spec_trim(t)),
            raw.len() == authors@.len(),
            cleaned@.map_values(|s: String| s@) == raw.take(i as int).filter(nonempty_pred()),
        decreases authors@.len() - i,
    {
        let ghost cleaned_before = cleaned@.map_values(|s: String| s@);
        let t = trim(authors[i].as_str());
        if !t.is_empty() {
            cleaned.push(String::from_str(t));
        }
        proof {
            reveal(Seq::filter);
            let t1 = raw.take(i + 1);
            assert(t1.drop_last() =~= raw.take(i as int));
            assert(t1.last() == raw[i as int]);
            assert(raw[i as int] == spec_trim(authors@[i as int]@));
            assert(nonempty_pred()(t1.last()) == (t@.len() > 0));
            if t@.len() > 0 {
                assert(cleaned@.map_values(|s: String| s@) =~= cleaned_before.push(t@));
            }
        }
        i += 1;
    }
    proof {
        assert(raw.take(raw.len() as int) =~= raw);
    }
    if cleaned.is_empty() {
        proof {
            assert(cleaned@.map_values(|s: String| s@).len() == 0);
        }
        default_author.to_owned()
    } else {
        proof {
            assert(cleaned@.map_values(|s: String| s@).len() > 0);
        }
        join_with(&cleaned, ", ")
    }
}

/// A post assembled from a headline-list card: the title trimmed, link and
/// image as extracted, an empty summary and the site's fixed author.
pub fn assemble_headline_post(
    title: Option<String>,
    link: Option<String>,
    image: Option<String>,
    default_author: &str,
) -> (r: NewsPost)
    ensures
        r@.title == (match opt_view(title) {
            Some(t) => Some(spec_trim(t)),
            None => None::<Seq<char>>,
        }),
        r@.link == opt_view(link),
        r@.image == opt_view(image),
        r@.summary == Some(Seq::<char>::empty()),
        r@.author == Some(default_author@),
{
    let trimmed = match &title {
        Some(t) => Some(String::from_str(trim(t.as_str()))),
        None => None,
    };
    NewsPost {
        image,
        title: trimmed,
        summary: Some(String::new()),
        link,
        author: Some(default_author.to_owned()),
    }
}

/// A post assembled from an article card: the title trimmed, the author
/// line built from the card's author fragments, and the excerpt kept only
/// when trimming leaves any of it.
pub fn assemble_article_post(
    title: Option<String>,
    link: Option<String>,
    image: Option<String>,
    authors: &Vec<String>,
    excerpt: Option<String>,
    default_author: &str,
) -> (r: NewsPost)
    ensures
        r@.title == (match opt_view(title) {
            Some(t) => Some(spec_trim(t)),
            None => None::<Seq<char>>,
        }),
        r@.link == opt_view(link),
        r@.image == opt_view(image),
        ({
            let cleaned = spec_cleaned_authors(authors@.map_values(|s: String| s@));
            r@.author == Some(
                if cleaned.len() == 0 {
                    default_author@
                } else {
                    spec_join(cleaned, ", "@)
                },
            )
        }),
        r@.summary == (match opt_view(excerpt) {
            Some(e) => if spec_trim(e).len() == 0 {
                None::<Seq<char>>
            } else {
                Some(spec_trim(e))
            },
            None => None::<Seq<char>>,
        }),
{
    let trimmed = match &title {
        Some(t) => Some(String::from_str(trim(t.as_str()))),
        None => None,
    };
    let summary = match &excerpt {
        Some(e) => {
            let cut = trim(e.as_str());
            if cut.is_empty() {
                None
            } else {
                Some(String::from_str(cut))
            }
        },
        None => None,
    };
    NewsPost {
        image,
        title: trimmed,
        summary,
        link,
        author: Some(assemble_authors(authors, default_author)),
    }
}

/// A post assembled from a review-list card: title, link, author and image
/// as extracted, the summary trimmed and with non-breaking-space entities
/// removed.
pub fn assemble_review_post(
    title: Option<String>,
    link: Option<String>,
    image: Option<String>,
    summary: Option<String>,
    author: Option<String>,
) -> (r: NewsPost)
    ensures
        r@.title == opt_view(title),
        r@.link == opt_view(link),
        r@.image == opt_view(image),
        r@.author == opt_view(author),
        r@.summary == (match opt_view(summary) {
            Some(s) => Some(spec_remove_nbsp(spec_trim(s))),
            None => None::<Seq<char>>,
        }),
{
    let cleaned = match &summary {
        Some(s) => Some(remove_nbsp(trim(s.as_str()))),
        None => None,
    };
    NewsPost {
        image,
        title,
        summary: cleaned,
        link,
        author,
    }
}

} // verus!
