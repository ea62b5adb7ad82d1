//! The status-and-media platform records: the status request built from a
//! post under a fixed character budget, and the partial responses the
//! platform returns.
//!
//! The budget discipline: space for the trailing link and its separator is
//! reserved first, so the link is never cut; the title and then the summary
//! greedily fill what remains, each truncated to fit; the link is always
//! appended last and whole.

use vstd::prelude::*;
use vstd::string::{StringExecFns, StringSliceAdditionalSpecFns, StrSliceExecFns};
use vstd::utf8::encode_utf8;

use crate::json::{json_string, json_string_array, lit, push_json_string, push_json_string_array, push_lit};
use crate::post::NewsPost;

verus! {

/// The character budget of one status.
pub const STATUS_CHARACTER_BUDGET: usize = 500;

/// Is a truncated response from the media endpoint.
#[derive(Debug)]
pub struct PartialMediaResponse {
    pub id: String,
    pub media_type: String,
    pub url: String,
}

/// Is a partial response from the status-creation endpoint.
#[derive(Debug)]
pub struct PartialPostStatusResponse {
    pub id: String,
    pub created_at: String,
    pub visibility: String,
    pub uri: String,
    pub url: String,
}

/// A title or summary line under the budget: the text truncated to what
/// fits, and a newline after it when any of it fits at all. The newline
/// counts against the budget.
pub open spec fn spec_status_line(text: Seq<char>, avail: int) -> Seq<char> {
    if avail <= 0 || text.len() == 0 {
        seq![]
    } else if text.len() <= avail - 1 {
        text + seq!['\n']
    } else {
        text.take(avail - 1) + seq!['\n']
    }
}

/// The status text for a post: the title line, then the summary line in the
/// space the title left, then the link, whole.
pub open spec fn spec_status_text(title: Seq<char>, summary: Seq<char>, link: Seq<char>) -> Seq<
    char,
> {
    let budget = STATUS_CHARACTER_BUDGET as int;
    if link.len() + 1 > budget {
        link
    } else {
        let avail0 = budget - link.len() - 1;
        let tline = spec_status_line(title, avail0);
        let avail1 = avail0 - tline.len();
        let sline = spec_status_line(summary, avail1);
        tline + sline + link
    }
}

/// The status text always ends with the whole link, and never exceeds the
/// budget plus the link; when the link itself leaves room, the whole text
/// stays within the budget.
pub proof fn lemma_status_text_fits(title: Seq<char>, summary: Seq<char>, link: Seq<char>)
    ensures
        ({
            let t = spec_status_text(title, summary, link);
            &&& t.len() >= link.len()
            &&& t.subrange(t.len() - link.len(), t.len() as int) == link
            &&& t.len() <= STATUS_CHARACTER_BUDGET + link.len()
            &&& link.len() + 1 <= STATUS_CHARACTER_BUDGET ==> t.len()
                <= STATUS_CHARACTER_BUDGET as int
        }),
{
    let t = spec_status_text(title, summary, link);
    let budget = STATUS_CHARACTER_BUDGET as int;
    if link.len() + 1 > budget {
        assert(t.subrange(t.len() - link.len(), t.len() as int) =~= link);
    } else {
        let avail0 = budget - link.len() - 1;
        let tline = spec_status_line(title, avail0);
        let avail1 = avail0 - tline.len();
        let sline = spec_status_line(summary, avail1);
        assert(tline.len() <= avail0);
        assert(sline.len() <= if avail1 >= 0 {
            avail1
        } else {
            0
        });
        assert(t.subrange(t.len() - link.len(), t.len() as int) =~= link);
    }
}

fn status_line_push(out: &mut String, text: &str, avail: usize) -> (used: usize)
    ensures
        final(out)@ == old(out)@ + spec_status_line(text@, avail as int),
        used == spec_status_line(text@, avail as int).len(),
        used <= avail,
{
    let n = text.unicode_len();
    if avail == 0 || n == 0 {
        proof {
            assert(final(out)@ =~= old(out)@ + spec_status_line(text@, avail as int));
        }
        return 0;
    }
    if n <= avail - 1 {
        out.append(text);
        out.append("\n");
        proof {
            reveal_strlit("\n");
            assert(("\n")@ =~= seq!['\n']);
            assert(final(out)@ =~= old(out)@ + spec_status_line(text@, avail as int));
        }
        n + 1
    } else {
        let part = text.substring_char(0, avail - 1);
        out.append(part);
        out.append("\n");
        proof {
            reveal_strlit("\n");
            assert(("\n")@ =~= seq!['\n']);
            assert(text@.subrange(0, avail - 1int) =~= text@.take(avail - 1int));
            assert(final(out)@ =~= old(out)@ + spec_status_line(text@, avail as int));
        }
        avail
    }
}

/// Builds the status text for the given title, summary and link.
pub fn build_status_text(title: &str, summary: &str, link: &str) -> (r: String)
    ensures
        r@ == spec_status_text(title@, summary@, link@),
{
    let link_len = link.unicode_len();
    let mut out = String::new();
    if link_len >= STATUS_CHARACTER_BUDGET {
        // Not even one character beside the separator and link would fit.
        out.append(link);
        proof {
            assert(out@ =~= spec_status_text(title@, summary@, link@));
        }
        return out;
    }
    let avail0 = STATUS_CHARACTER_BUDGET - link_len - 1;
    let used = status_line_push(&mut out, title, avail0);
    let avail1 = avail0 - used;
    let _ = status_line_push(&mut out, summary, avail1);
    out.append(link);
    proof {
        assert(out@ =~= spec_status_text(title@, summary@, link@));
    }
    out
}

/// PostStatusRequest is the request made to post a status.
#[derive(Debug)]
pub struct PostStatusRequest {
    pub status: String,
    pub language: String,
    pub visibility: String,
    pub media_ids: Vec<String>,
}

impl PostStatusRequest {
    /// The status request for a complete post: the status text under the
    /// budget, the fixed language and visibility, and no media yet.
    pub fn from_post(post: &NewsPost) -> (r: Self)
        requires
            post.spec_is_complete(),
        ensures
            r.status@ == spec_status_text(
                post@.title->Some_0,
                post@.summary->Some_0,
                post@.link->Some_0,
            ),
            r.language@ == "ro"@,
            r.visibility@ == "public"@,
            r.media_ids@ == Seq::<String>::empty(),
    {
        let title = match &post.title {
            Some(t) => t.as_str(),
            None => "",
        };
        let summary = match &post.summary {
            Some(s) => s.as_str(),
            None => "",
        };
        let link = match &post.link {
            Some(l) => l.as_str(),
            None => "",
        };
        let status = build_status_text(title, summary, link);
        let r = PostStatusRequest {
            status,
            language: String::from_str("ro"),
            visibility: String::from_str("public"),
            media_ids: Vec::new(),
        };
        proof {
            assert(r.media_ids@ =~= Seq::<String>::empty());
        }
        r
    }

    /// The request's JSON wire form.
    pub open spec fn spec_json(self) -> Seq<u8> {
        lit("{\"status\":") + json_string(encode_utf8(self.status@))
            + lit(",\"language\":") + json_string(encode_utf8(self.language@))
            + lit(",\"visibility\":") + json_string(encode_utf8(self.visibility@))
            + lit(",\"media_ids\":") + json_string_array(
            self.media_ids@.map_values(|s: String| encode_utf8(s@)),
        ) + lit("}")
    }

    /// Renders the request as JSON.
    pub fn to_json(&self) -> (r: Vec<u8>)
        ensures
            r@ == self.spec_json(),
    {
        let mut out: Vec<u8> = Vec::new();
        push_lit(&mut out, "{\"status\":");
        push_json_string(&mut out, self.status.as_str());
        push_lit(&mut out, ",\"language\":");
        push_json_string(&mut out, self.language.as_str());
        push_lit(&mut out, ",\"visibility\":");
        push_json_string(&mut out, self.visibility.as_str());
        push_lit(&mut out, ",\"media_ids\":");
        push_json_string_array(&mut out, &self.media_ids);
        push_lit(&mut out, "}");
        proof {
            assert(out@ =~= self.spec_json());
        }
        out
    }
}

} // verus!
