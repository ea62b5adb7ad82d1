//! The records of the record-and-blob platform protocol: session creation,
//! blob references and the post record itself, each rendered to its exact
//! JSON wire form.

use vstd::prelude::*;
use vstd::string::{StringExecFns, StringSliceAdditionalSpecFns};
use vstd::utf8::encode_utf8;

use crate::json::{
    json_string, lit, push_dec_signed, push_json_string, push_lit, spec_dec_signed,
};
use crate::post::NewsPost;

verus! {

/// The reference a blob is addressed by.
#[derive(Debug)]
pub struct BlobLinkRef {
    pub _link: String,
}

/// An uploaded blob: its reference, media type and size in bytes.
#[derive(Debug)]
pub struct Blob {
    pub _type: String,
    pub link_ref: BlobLinkRef,
    pub mime_type: String,
    pub size: i64,
}

impl Blob {
    /// A blob record for an upload result.
    pub fn new(link: &str, mime_type: &str, size: i64) -> (r: Self)
        ensures
            r._type@ == "blob"@,
            r.link_ref._link@ == link@,
            r.mime_type@ == mime_type@,
            r.size == size,
    {
        Blob {
            _type: String::from_str("blob"),
            link_ref: BlobLinkRef { _link: String::from_str(link) },
            mime_type: String::from_str(mime_type),
            size,
        }
    }

    /// The blob's JSON wire form.
    pub open spec fn spec_json(self) -> Seq<u8> {
        lit("{\"$type\":") + json_string(encode_utf8(self._type@)) + lit(",\"ref\":{\"$link\":")
            + json_string(encode_utf8(self.link_ref._link@)) + lit("},\"mimeType\":")
            + json_string(encode_utf8(self.mime_type@)) + lit(",\"size\":") + spec_dec_signed(
            self.size as int,
        ) + lit("}")
    }

    /// Renders the blob as JSON.
    pub fn to_json(&self) -> (r: Vec<u8>)
        ensures
            r@ == self.spec_json(),
    {
        let mut out: Vec<u8> = Vec::new();
        push_lit(&mut out, "{\"$type\":");
        push_json_string(&mut out, self._type.as_str());
        push_lit(&mut out, ",\"ref\":{\"$link\":");
        push_json_string(&mut out, self.link_ref._link.as_str());
        push_lit(&mut out, "},\"mimeType\":");
        push_json_string(&mut out, self.mime_type.as_str());
        push_lit(&mut out, ",\"size\":");
        push_dec_signed(&mut out, self.size);
        push_lit(&mut out, "}");
        proof {
            assert(out@ =~= self.spec_json());
        }
        out
    }
}

/// The result of a blob upload: the blob the platform stored.
#[derive(Debug)]
pub struct BlobResponse {
    pub blob: Blob,
}

/// The body of a session-creation request.
#[derive(Debug, Default)]
pub struct ATProtoServerCreateSession {
    pub identifier: String,
    pub password: String,
}

impl ATProtoServerCreateSession {
    /// The request's JSON wire form.
    pub open spec fn spec_json(self) -> Seq<u8> {
        lit("{\"identifier\":") + json_string(encode_utf8(self.identifier@)) + lit(
            ",\"password\":",
        ) + json_string(encode_utf8(self.password@)) + lit("}")
    }

    /// Renders the request as JSON.
    pub fn to_json(&self) -> (r: Vec<u8>)
        ensures
            r@ == self.spec_json(),
    {
        let mut out: Vec<u8> = Vec::new();
        push_lit(&mut out, "{\"identifier\":");
        push_json_string(&mut out, self.identifier.as_str());
        push_lit(&mut out, ",\"password\":");
        push_json_string(&mut out, self.password.as_str());
        push_lit(&mut out, "}");
        proof {
            assert(out@ =~= self.spec_json());
        }
        out
    }
}

/// The external-link card embedded in a record: link, title, description
/// and an optional thumbnail blob.
#[derive(Debug)]
pub struct ExternalRecordEmbed {
    pub uri: String,
    pub title: String,
    pub description: String,
    pub thumb: Option<Blob>,
}

impl ExternalRecordEmbed {
    /// The card's JSON wire form; an absent thumbnail is omitted.
    pub open spec fn spec_json(self) -> Seq<u8> {
        lit("{\"uri\":") + json_string(encode_utf8(self.uri@)) + lit(",\"title\":") + json_string(
            encode_utf8(self.title@),
        ) + lit(",\"description\":") + json_string(encode_utf8(self.description@)) + (
        match self.thumb {
            Some(b) => lit(",\"thumb\":") + b.spec_json(),
            None => seq![],
        }) + lit("}")
    }

    /// Renders the card as JSON.
    pub fn to_json(&self) -> (r: Vec<u8>)
        ensures
            r@ == self.spec_json(),
    {
        let mut out: Vec<u8> = Vec::new();
        push_lit(&mut out, "{\"uri\":");
        push_json_string(&mut out, self.uri.as_str());
        push_lit(&mut out, ",\"title\":");
        push_json_string(&mut out, self.title.as_str());
        push_lit(&mut out, ",\"description\":");
        push_json_string(&mut out, self.description.as_str());
        match &self.thumb {
            Some(b) => {
                push_lit(&mut out, ",\"thumb\":");
                let mut bj = b.to_json();
                out.append(&mut bj);
            },
            None => {},
        }
        push_lit(&mut out, "}");
        proof {
            assert(out@ =~= self.spec_json());
        }
        out
    }
}

/// The embed member of a record: its protocol type tag and the card.
#[derive(Debug)]
pub struct ATprotoRepoCreateRecordEmbed {
    pub embed_type: String,
    pub external: ExternalRecordEmbed,
}

impl ATprotoRepoCreateRecordEmbed {
    /// An external-link embed for the given card fields.
    pub fn new(uri: &str, title: &str, description: &str, thumb: Option<Blob>) -> (r: Self)
        ensures
            r.embed_type@ == "app.bsky.embed.external"@,
            r.external.uri@ == uri@,
            r.external.title@ == title@,
            r.external.description@ == description@,
            r.external.thumb == thumb,
    {
        ATprotoRepoCreateRecordEmbed {
            embed_type: String::from_str("app.bsky.embed.external"),
            external: ExternalRecordEmbed {
                uri: String::from_str(uri),
                title: String::from_str(title),
                description: String::from_str(description),
                thumb,
            },
        }
    }

    /// The embed's JSON wire form.
    pub open spec fn spec_json(self) -> Seq<u8> {
        lit("{\"$type\":") + json_string(encode_utf8(self.embed_type@)) + lit(",\"external\":")
            + self.external.spec_json() + lit("}")
    }

    /// Renders the embed as JSON.
    pub fn to_json(&self) -> (r: Vec<u8>)
        ensures
            r@ == self.spec_json(),
    {
        let mut out: Vec<u8> = Vec::new();
        push_lit(&mut out, "{\"$type\":");
        push_json_string(&mut out, self.embed_type.as_str());
        push_lit(&mut out, ",\"external\":");
        let mut ej = self.external.to_json();
        out.append(&mut ej);
        push_lit(&mut out, "}");
        proof {
            assert(out@ =~= self.spec_json());
        }
        out
    }
}

/// What rendering an instant as RFC 3339 yields: a function of the epoch
/// second alone, the rendering always being in UTC.
pub uninterp spec fn rfc3339_utc_of(secs: i64) -> Seq<char>;

/// Relies on chrono's DateTime::from_timestamp and to_rfc3339: the rendering
/// depends on the epoch second alone. An instant outside chrono's range
/// renders as the empty string.
#[verifier::external_body]
fn rfc3339_utc(secs: i64) -> (r: String)
    ensures
        r@ == rfc3339_utc_of(secs),
{
    match chrono::DateTime::<chrono::Utc>::from_timestamp(secs, 0) {
        Some(d) => d.to_rfc3339(),
        None => String::new(),
    }
}

/// The record of one post: its text, creation instant and optional embed.
#[derive(Debug)]
pub struct ATprotoRepoCreateRecordRecord {
    pub text: String,
    pub created_at: String,
    pub embed: Option<ATprotoRepoCreateRecordEmbed>,
}

impl ATprotoRepoCreateRecordRecord {
    /// A record with its creation instant rendered from the epoch second.
    pub fn new(text: &str, created_at_unix: i64, embed: Option<ATprotoRepoCreateRecordEmbed>) -> (r:
        Self)
        ensures
            r.text@ == text@,
            r.created_at@ == rfc3339_utc_of(created_at_unix),
            r.embed == embed,
    {
        ATprotoRepoCreateRecordRecord {
            text: String::from_str(text),
            created_at: rfc3339_utc(created_at_unix),
            embed,
        }
    }

    /// The record's JSON wire form; an absent embed is omitted.
    pub open spec fn spec_json(self) -> Seq<u8> {
        lit("{\"text\":") + json_string(encode_utf8(self.text@)) + lit(",\"createdAt\":")
            + json_string(encode_utf8(self.created_at@)) + (match self.embed {
            Some(e) => lit(",\"embed\":") + e.spec_json(),
            None => seq![],
        }) + lit("}")
    }

    /// Renders the record as JSON.
    pub fn to_json(&self) -> (r: Vec<u8>)
        ensures
            r@ == self.spec_json(),
    {
        let mut out: Vec<u8> = Vec::new();
        push_lit(&mut out, "{\"text\":");
        push_json_string(&mut out, self.text.as_str());
        push_lit(&mut out, ",\"createdAt\":");
        push_json_string(&mut out, self.created_at.as_str());
        match &self.embed {
            Some(e) => {
                push_lit(&mut out, ",\"embed\":");
                let mut ej = e.to_json();
                out.append(&mut ej);
            },
            None => {},
        }
        push_lit(&mut out, "}");
        proof {
            assert(out@ =~= self.spec_json());
        }
        out
    }
}

/// The body of a record-creation request: the repository (the account), the
/// collection the record goes into, and the record.
#[derive(Debug)]
pub struct ATProtoRepoCreateRecord {
    pub repo: String,
    pub collection: String,
    pub record: ATprotoRepoCreateRecordRecord,
}

impl ATProtoRepoCreateRecord {
    /// A post-creation request for the given account handle.
    pub fn new(handle: &str, record: ATprotoRepoCreateRecordRecord) -> (r: Self)
        ensures
            r.repo@ == handle@,
            r.collection@ == "app.bsky.feed.post"@,
            r.record == record,
    {
        ATProtoRepoCreateRecord {
            repo: String::from_str(handle),
            collection: String::from_str("app.bsky.feed.post"),
            record,
        }
    }

    /// The request's JSON wire form.
    pub open spec fn spec_json(self) -> Seq<u8> {
        lit("{\"repo\":") + json_string(encode_utf8(self.repo@)) + lit(",\"collection\":")
            + json_string(encode_utf8(self.collection@)) + lit(",\"record\":")
            + self.record.spec_json() + lit("}")
    }

    /// Renders the request as JSON.
    pub fn to_json(&self) -> (r: Vec<u8>)
        ensures
            r@ == self.spec_json(),
    {
        let mut out: Vec<u8> = Vec::new();
        push_lit(&mut out, "{\"repo\":");
        push_json_string(&mut out, self.repo.as_str());
        push_lit(&mut out, ",\"collection\":");
        push_json_string(&mut out, self.collection.as_str());
        push_lit(&mut out, ",\"record\":");
        let mut rj = self.record.to_json();
        out.append(&mut rj);
        push_lit(&mut out, "}");
        proof {
            assert(out@ =~= self.spec_json());
        }
        out
    }

    /// The record built from a complete post: the title as the text, an
    /// external-link card carrying link, title and summary, no thumbnail
    /// yet, and an empty repository to be filled with the account handle.
    pub fn from_post(post: &NewsPost, created_at_unix: i64) -> (r: Self)
        requires
            post.spec_is_complete(),
        ensures
            r.repo@ == Seq::<char>::empty(),
            r.collection@ == "app.bsky.feed.post"@,
            r.record.text@ == post@.title->Some_0,
            r.record.created_at@ == rfc3339_utc_of(created_at_unix),
            r.record.embed matches Some(e) && e.embed_type@ == "app.bsky.embed.external"@
                && e.external.uri@ == post@.link->Some_0 && e.external.title@
                == post@.title->Some_0 && e.external.description@ == post@.summary->Some_0
                && e.external.thumb is None,
    {
        let title = match &post.title {
            Some(t) => t.as_str(),
            None => "",
        };
        let link = match &post.link {
            Some(l) => l.as_str(),
            None => "",
        };
        let summary = match &post.summary {
            Some(s) => s.as_str(),
            None => "",
        };
        let embed = ATprotoRepoCreateRecordEmbed::new(link, title, summary, None);
        let record = ATprotoRepoCreateRecordRecord::new(title, created_at_unix, Some(embed));
        proof {
            reveal_strlit("");
            assert(""@ =~= Seq::<char>::empty());
        }
        ATProtoRepoCreateRecord::new("", record)
    }

    /// Attaches an uploaded thumbnail blob to the record's embed card,
    /// leaving every other field as it was.
    pub fn attach_thumb(&mut self, blob: Blob)
        requires
            old(self).record.embed is Some,
        ensures
            final(self).repo == old(self).repo,
            final(self).collection == old(self).collection,
            final(self).record.text == old(self).record.text,
            final(self).record.created_at == old(self).record.created_at,
            ({
                let ne = final(self).record.embed;
                let oe = old(self).record.embed->Some_0;
                ne matches Some(e) && e.embed_type == oe.embed_type && e.external.uri
                    == oe.external.uri && e.external.title == oe.external.title
                    && e.external.description == oe.external.description && e.external.thumb
                    == Some(blob)
            }),
    {
        match &mut self.record.embed {
            Some(e) => {
                e.external.thumb = Some(blob);
            },
            None => {},
        }
    }
}

} // verus!
