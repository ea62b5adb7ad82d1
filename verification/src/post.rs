//! The unit of work flowing through the pipeline: a scraped news post.

use vstd::prelude::*;

verus! {

/// The mathematical shape of a news post: each field as an optional
/// character sequence.
pub ghost struct PostView {
    pub image: Option<Seq<char>>,
    pub title: Option<Seq<char>>,
    pub summary: Option<Seq<char>>,
    pub link: Option<Seq<char>>,
    pub author: Option<Seq<char>>,
}

/// The view of an optional owned string.
pub open spec fn opt_view(f: Option<String>) -> Option<Seq<char>> {
    match f {
        Some(s) => Some(s@),
        None => None,
    }
}

/// NewsPost represents a news post.
#[derive(Debug, PartialEq)]
pub struct NewsPost {
    /// A URL containing the image of the post.
    pub image: Option<String>,
    /// The title of the post.
    pub title: Option<String>,
    /// A summary of the post.
    pub summary: Option<String>,
    /// A link to the post.
    pub link: Option<String>,
    /// The author of the post.
    pub author: Option<String>,
}

impl View for NewsPost {
    type V = PostView;

    open spec fn view(&self) -> PostView {
        PostView {
            image: opt_view(self.image),
            title: opt_view(self.title),
            summary: opt_view(self.summary),
            link: opt_view(self.link),
            author: opt_view(self.author),
        }
    }
}

fn clone_opt_string(f: &Option<String>) -> (r: Option<String>)
    ensures
        r == *f,
{
    match f {
        Some(s) => Some(s.clone()),
        None => None,
    }
}

impl Clone for NewsPost {
    /// A clone carries exactly the same fields.
    fn clone(&self) -> (r: Self)
        ensures
            r == *self,
    {
        NewsPost {
            image: clone_opt_string(&self.image),
            title: clone_opt_string(&self.title),
            summary: clone_opt_string(&self.summary),
            link: clone_opt_string(&self.link),
            author: clone_opt_string(&self.author),
        }
    }
}

impl PostView {
    /// Completeness, stated over the view.
    pub open spec fn is_complete(self) -> bool {
        &&& self.title is Some
        &&& self.summary is Some
        &&& self.link is Some
    }
}

impl NewsPost {
    /// A post is complete when the fields a publisher needs are all present:
    /// title, summary and link. Only complete posts may be enqueued or
    /// published.
    pub open spec fn spec_is_complete(self) -> bool {
        self@.is_complete()
    }

    /// Is complete checks if the news post contains the minimum fields.
    pub fn is_complete(&self) -> (r: bool)
        ensures
            r == self.spec_is_complete(),
    {
        self.title.is_some() && self.summary.is_some() && self.link.is_some()
    }
}

} // verus!
