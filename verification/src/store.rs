//! An in-process store with log semantics: named append-only streams with
//! consumer groups, and flag keys that expire after a time-to-live.
//!
//! This is the durable buffer between ingestion and publication. Entry ids
//! are assigned by the log and strictly increase within a stream; a consumer
//! group remembers the last id delivered to it, and a read hands out the
//! first entry past that id. Flag keys back the deduplication layer: a key
//! is seen exactly from the moment it is marked until its time-to-live has
//! elapsed. Time is always passed in, so expiry is a property of the values,
//! not of a wall clock.

use vstd::prelude::*;
use vstd::string::{StringExecFns, StringSliceAdditionalSpecFns, StrSliceExecFns};
use vstd::utf8::encode_utf8;

use crate::codec::{
    decode_post, encode_post, lemma_codec_round_trip, post_fits, spec_decode_post,
    spec_encode_post,
};
use crate::post::{NewsPost, PostView};
use crate::util::{bytes_eq, find_key, hex_bytes, lemma_find_key_first, lemma_find_key_none, lemma_find_key_props, lemma_find_key_same_keys, spec_hex};

verus! {

/// A fingerprint is the lower-case hex form of the digest of the title's
/// UTF-8 bytes: a stable, fixed-size key for the dedup store.
pub uninterp spec fn md5_of(bytes: Seq<u8>) -> Seq<u8>;

/// Relies on md5::compute: the digest depends on the input bytes alone and
/// is sixteen bytes long.
#[verifier::external_body]
fn md5_digest(data: &[u8]) -> (r: Vec<u8>)
    ensures
        r@ == md5_of(data@),
        r@.len() == 16,
{
    md5::compute(data).0.to_vec()
}

/// The dedup key derived from a post title.
pub open spec fn spec_fingerprint(title: Seq<char>) -> Seq<u8> {
    spec_hex(md5_of(encode_utf8(title)))
}

/// Computes the dedup key for a title.
pub fn fingerprint(title: &str) -> (r: Vec<u8>)
    ensures
        r@ == spec_fingerprint(title@),
{
    let digest = md5_digest(title.as_bytes());
    hex_bytes(digest.as_slice())
}

/// One message in a stream: a log-assigned id and the encoded post.
pub struct StreamEntry {
    pub id: u64,
    pub payload: Vec<u8>,
}

/// A consumer group's cursor: the highest id already delivered to it.
pub struct ConsumerGroup {
    pub name: String,
    pub last_delivered: u64,
}

/// One append-only stream.
pub struct Stream {
    pub name: String,
    pub entries: Vec<StreamEntry>,
    pub next_id: u64,
    pub groups: Vec<ConsumerGroup>,
}

/// A flag key with its expiry instant.
pub struct FlagEntry {
    pub key: Vec<u8>,
    pub expiry: u64,
}

/// The store: streams addressed by name, and expiring flag keys.
pub struct RedisService {
    pub streams: Vec<Stream>,
    pub flags: Vec<FlagEntry>,
}

/// The mathematical shape of one stream.
pub ghost struct StreamModel {
    pub entries: Seq<(u64, Seq<u8>)>,
    pub next_id: u64,
    pub groups: Seq<(Seq<char>, u64)>,
}

/// The mathematical shape of the whole store.
pub ghost struct StoreModel {
    pub streams: Seq<(Seq<char>, StreamModel)>,
    pub flags: Seq<(Seq<u8>, u64)>,
}

impl View for Stream {
    type V = StreamModel;

    open spec fn view(&self) -> StreamModel {
        StreamModel {
            entries: self.entries@.map_values(|e: StreamEntry| (e.id, e.payload@)),
            next_id: self.next_id,
            groups: self.groups@.map_values(|g: ConsumerGroup| (g.name@, g.last_delivered)),
        }
    }
}

impl View for RedisService {
    type V = StoreModel;

    open spec fn view(&self) -> StoreModel {
        StoreModel {
            streams: self.streams@.map_values(|s: Stream| (s.name@, s@)),
            flags: self.flags@.map_values(|f: FlagEntry| (f.key@, f.expiry)),
        }
    }
}

impl StoreModel {
    /// The expiry recorded for a flag key, if any.
    pub open spec fn flag_expiry(self, key: Seq<u8>) -> Option<u64> {
        let i = find_key(self.flags, key);
        if i == -1 {
            None
        } else {
            Some(self.flags[i].1)
        }
    }

    /// A key is seen at time `t` exactly while its expiry lies ahead.
    pub open spec fn seen_at(self, key: Seq<u8>, t: u64) -> bool {
        match self.flag_expiry(key) {
            Some(e) => t < e,
            None => false,
        }
    }

    /// The store after marking `key` until `now + ttl`.
    pub open spec fn spec_flag(self, key: Seq<u8>, ttl: u64, now: u64) -> StoreModel {
        let i = find_key(self.flags, key);
        let expiry = (now + ttl) as u64;
        if i == -1 {
            StoreModel { streams: self.streams, flags: self.flags.push((key, expiry)) }
        } else {
            StoreModel { streams: self.streams, flags: self.flags.update(i, (key, expiry)) }
        }
    }
}

impl RedisService {
    /// Creates a new service instance with no streams and no flags.
    pub fn new() -> (r: Self)
        ensures
            r@.streams == Seq::<(Seq<char>, StreamModel)>::empty(),
            r@.flags == Seq::<(Seq<u8>, u64)>::empty(),
    {
        let r = RedisService { streams: Vec::new(), flags: Vec::new() };
        proof {
            assert(r@.streams =~= Seq::<(Seq<char>, StreamModel)>::empty());
            assert(r@.flags =~= Seq::<(Seq<u8>, u64)>::empty());
        }
        r
    }

    fn flag_index(&self, key: &[u8]) -> (r: Option<usize>)
        ensures
            match r {
                Some(i) => 0 <= i < self@.flags.len() && find_key(self@.flags, key@) == i as int,
                None => find_key(self@.flags, key@) == -1,
            },
    {
        let mut i: usize = 0;
        while i < self.flags.len()
            invariant
                i <= self.flags@.len(),
                forall|j: int| 0 <= j < i ==> self@.flags[j].0 != key@,
            decreases self.flags@.len() - i,
        {
            if bytes_eq(self.flags[i].key.as_slice(), key) {
                proof {
                    lemma_find_key_first(self@.flags, key@, i as int);
                }
                return Some(i);
            }
            i += 1;
        }
        proof {
            lemma_find_key_none(self@.flags, key@);
        }
        None
    }

    fn seen_bytes(&self, key: &[u8], now: u64) -> (r: bool)
        ensures
            r == self@.seen_at(key@, now),
    {
        match self.flag_index(key) {
            Some(i) => now < self.flags[i].expiry,
            None => false,
        }
    }

    fn flag_bytes(&mut self, key: Vec<u8>, ttl: u64, now: u64)
        requires
            now + ttl <= u64::MAX,
        ensures
            final(self)@ == old(self)@.spec_flag(key@, ttl, now),
            forall|t: u64| final(self)@.seen_at(key@, t) == (t < now + ttl),
            forall|k: Seq<u8>, t: u64|
                k != key@ ==> final(self)@.seen_at(k, t) == old(self)@.seen_at(k, t),
            final(self)@.streams == old(self)@.streams,
    {
        let expiry = now + ttl;
        let idx = self.flag_index(key.as_slice());
        match idx {
            Some(i) => {
                let entry = &mut self.flags[i];
                entry.key = key;
                entry.expiry = expiry;
                proof {
                    assert(final(self)@.flags =~= old(self)@.flags.update(
                        find_key(old(self)@.flags, key@),
                        (key@, expiry),
                    ));
                    lemma_flag_frame(old(self)@.flags, final(self)@.flags, key@);
                }
            },
            None => {
                self.flags.push(FlagEntry { key, expiry });
                proof {
                    assert(final(self)@.flags =~= old(self)@.flags.push((key@, expiry)));
                    lemma_flag_frame(old(self)@.flags, final(self)@.flags, key@);
                }
            },
        }
    }

    /// Returns true if the key is currently flagged, false otherwise.
    ///
    /// A lookup of a key that was never marked, or whose time-to-live has
    /// elapsed, reports "not seen".
    pub fn is_key_flagged(&mut self, key: &str, now: u64) -> (r: bool)
        ensures
            *final(self) == *old(self),
            r == old(self)@.seen_at(key.spec_bytes(), now),
    {
        let kb = key.as_bytes_vec();
        self.seen_bytes(kb.as_slice(), now)
    }

    /// Flags the key for `ttl` seconds from `now`.
    ///
    /// From this call on, and until the time-to-live elapses, the key is
    /// seen; from the instant `now + ttl` it is no longer seen.
    pub fn flag_key(&mut self, key: &str, ttl: u64, now: u64)
        requires
            now + ttl <= u64::MAX,
        ensures
            final(self)@ == old(self)@.spec_flag(key.spec_bytes(), ttl, now),
            forall|t: u64| final(self)@.seen_at(key.spec_bytes(), t) == (t < now + ttl),
            forall|k: Seq<u8>, t: u64|
                k != key.spec_bytes() ==> final(self)@.seen_at(k, t) == old(self)@.seen_at(k, t),
            final(self)@.streams == old(self)@.streams,
    {
        let kb = key.as_bytes_vec();
        self.flag_bytes(kb, ttl, now);
    }

    /// Returns true if a post with this title was marked seen and the mark
    /// has not yet expired.
    pub fn is_post_seen(&mut self, title: &str, now: u64) -> (r: bool)
        ensures
            *final(self) == *old(self),
            r == old(self)@.seen_at(spec_fingerprint(title@), now),
    {
        let key = fingerprint(title);
        self.seen_bytes(key.as_slice(), now)
    }

    /// Marks the post as seen for `ttl` seconds from `now`.
    pub fn mark_post_seen(&mut self, title: &str, ttl: u64, now: u64)
        requires
            now + ttl <= u64::MAX,
        ensures
            final(self)@ == old(self)@.spec_flag(spec_fingerprint(title@), ttl, now),
            forall|t: u64| final(self)@.seen_at(spec_fingerprint(title@), t) == (t < now + ttl),
            forall|k: Seq<u8>, t: u64|
                k != spec_fingerprint(title@) ==> final(self)@.seen_at(k, t) == old(
                    self,
                )@.seen_at(k, t),
            final(self)@.streams == old(self)@.streams,
    {
        let key = fingerprint(title);
        self.flag_bytes(key, ttl, now);
    }
}

/// An error from creating a consumer group.
#[derive(Debug, PartialEq, Eq, Structural, Clone, Copy)]
pub enum QueueError {
    /// The stream does not exist.
    NoSuchStream,
    /// The group was already created on this stream.
    GroupAlreadyExists,
}

/// An error from reading a stream as a group member.
#[derive(Debug, PartialEq, Eq, Structural, Clone, Copy)]
pub enum ReadError {
    /// The stream does not exist.
    NoSuchStream,
    /// No group of that name was created on the stream.
    NoSuchGroup,
    /// No entry past the group's cursor: the blocking wait timed out.
    NoData,
    /// The entry's payload does not decode to a post.
    Corrupt,
}

/// The first index of an entry with id greater than `last`, or -1.
pub open spec fn first_undelivered(entries: Seq<(u64, Seq<u8>)>, last: u64) -> int
    decreases entries.len(),
{
    if entries.len() == 0 {
        -1
    } else if entries[0].0 > last {
        0
    } else {
        let r = first_undelivered(entries.drop_first(), last);
        if r == -1 {
            -1
        } else {
            r + 1
        }
    }
}

proof fn lemma_first_undelivered_first(entries: Seq<(u64, Seq<u8>)>, last: u64, i: int)
    requires
        0 <= i < entries.len(),
        entries[i].0 > last,
        forall|j: int| 0 <= j < i ==> entries[j].0 <= last,
    ensures
        first_undelivered(entries, last) == i,
    decreases i,
{
    if i > 0 {
        lemma_first_undelivered_first(entries.drop_first(), last, i - 1);
    }
}

proof fn lemma_first_undelivered_props(entries: Seq<(u64, Seq<u8>)>, last: u64)
    ensures
        -1 <= first_undelivered(entries, last) < entries.len(),
        first_undelivered(entries, last) != -1 ==> entries[first_undelivered(entries, last)].0
            > last,
    decreases entries.len(),
{
    if entries.len() > 0 && entries[0].0 <= last {
        lemma_first_undelivered_props(entries.drop_first(), last);
    }
}

proof fn lemma_first_undelivered_none(entries: Seq<(u64, Seq<u8>)>, last: u64)
    requires
        forall|j: int| 0 <= j < entries.len() ==> entries[j].0 <= last,
    ensures
        first_undelivered(entries, last) == -1,
    decreases entries.len(),
{
    if entries.len() > 0 {
        lemma_first_undelivered_none(entries.drop_first(), last);
    }
}

impl StoreModel {
    /// The store and success flag after appending `payload` to `stream`.
    ///
    /// A missing stream is created with its first entry under id 1; an
    /// existing stream gets the entry under its next id. The append is
    /// refused only when the id space is exhausted.
    pub open spec fn spec_publish(self, stream: Seq<char>, payload: Seq<u8>) -> (StoreModel, bool) {
        let i = find_key(self.streams, stream);
        if i == -1 {
            (
                StoreModel {
                    streams: self.streams.push(
                        (
                            stream,
                            StreamModel {
                                entries: seq![(1u64, payload)],
                                next_id: 2u64,
                                groups: Seq::empty(),
                            },
                        ),
                    ),
                    flags: self.flags,
                },
                true,
            )
        } else {
            let st = self.streams[i].1;
            if st.next_id < u64::MAX {
                let st2 = StreamModel {
                    entries: st.entries.push((st.next_id, payload)),
                    next_id: (st.next_id + 1) as u64,
                    groups: st.groups,
                };
                (
                    StoreModel { streams: self.streams.update(i, (stream, st2)), flags: self.flags },
                    true,
                )
            } else {
                (self, false)
            }
        }
    }

    /// The store and result after creating `group` on `stream` with cursor
    /// `start`: an error when the stream is missing or the group already
    /// exists, in both cases leaving the store unchanged.
    pub open spec fn spec_create_group(self, stream: Seq<char>, group: Seq<char>, start: u64) -> (
        StoreModel,
        Result<(), QueueError>,
    ) {
        let si = find_key(self.streams, stream);
        if si == -1 {
            (self, Err(QueueError::NoSuchStream))
        } else {
            let st = self.streams[si].1;
            if find_key(st.groups, group) != -1 {
                (self, Err(QueueError::GroupAlreadyExists))
            } else {
                let st2 = StreamModel {
                    entries: st.entries,
                    next_id: st.next_id,
                    groups: st.groups.push((group, start)),
                };
                (
                    StoreModel {
                        streams: self.streams.update(si, (stream, st2)),
                        flags: self.flags,
                    },
                    Ok(()),
                )
            }
        }
    }

    /// The store and payload after one read by `group` on `stream`.
    ///
    /// The first entry past the group's cursor is delivered and the cursor
    /// advances to its id, whether or not the payload later decodes: the
    /// read acknowledges on delivery.
    pub open spec fn spec_read(self, stream: Seq<char>, group: Seq<char>) -> (
        StoreModel,
        Result<Seq<u8>, ReadError>,
    ) {
        let si = find_key(self.streams, stream);
        if si == -1 {
            (self, Err(ReadError::NoSuchStream))
        } else {
            let st = self.streams[si].1;
            let gi = find_key(st.groups, group);
            if gi == -1 {
                (self, Err(ReadError::NoSuchGroup))
            } else {
                let last = st.groups[gi].1;
                let ei = first_undelivered(st.entries, last);
                if ei == -1 {
                    (self, Err(ReadError::NoData))
                } else {
                    let entry = st.entries[ei];
                    let st2 = StreamModel {
                        entries: st.entries,
                        next_id: st.next_id,
                        groups: st.groups.update(gi, (group, entry.0)),
                    };
                    (
                        StoreModel {
                            streams: self.streams.update(si, (stream, st2)),
                            flags: self.flags,
                        },
                        Ok(entry.1),
                    )
                }
            }
        }
    }
}

impl RedisService {
    fn stream_index(&self, name: &str) -> (r: Option<usize>)
        ensures
            match r {
                Some(i) => 0 <= i < self@.streams.len() && find_key(self@.streams, name@)
                    == i as int,
                None => find_key(self@.streams, name@) == -1,
            },
    {
        let key = name.to_owned();
        let mut i: usize = 0;
        while i < self.streams.len()
            invariant
                i <= self.streams@.len(),
                key@ == name@,
                forall|j: int| 0 <= j < i ==> self@.streams[j].0 != name@,
            decreases self.streams@.len() - i,
        {
            if self.streams[i].name == key {
                proof {
                    lemma_find_key_first(self@.streams, name@, i as int);
                }
                return Some(i);
            }
            i += 1;
        }
        proof {
            lemma_find_key_none(self@.streams, name@);
        }
        None
    }

    /// Publishes the post to the stream.
    /// Returns a `bool` that is true if the post was appended and false
    /// otherwise.
    pub fn publish(&mut self, stream_name: &str, data: &NewsPost) -> (r: bool)
        ensures
            ({
                let (m2, ok) = old(self)@.spec_publish(stream_name@, spec_encode_post(data@));
                final(self)@ == m2 && r == ok
            }),
    {
        let payload = encode_post(data);
        let ghost payload_view = payload@;
        let idx = self.stream_index(stream_name);
        match idx {
            None => {
                let mut entries: Vec<StreamEntry> = Vec::new();
                entries.push(StreamEntry { id: 1, payload });
                let st = Stream {
                    name: stream_name.to_owned(),
                    entries,
                    next_id: 2,
                    groups: Vec::new(),
                };
                proof {
                    assert(st@.entries =~= seq![(1u64, payload_view)]);
                    assert(st@.groups =~= Seq::<(Seq<char>, u64)>::empty());
                }
                self.streams.push(st);
                proof {
                    assert(final(self)@.streams =~= old(self)@.streams.push(
                        (stream_name@, st@),
                    ));
                    assert(final(self)@.flags =~= old(self)@.flags);
                }
                true
            },
            Some(i) => {
                if self.streams[i].next_id == u64::MAX {
                    proof {
                        assert(final(self)@.streams =~= old(self)@.streams);
                        assert(final(self)@.flags =~= old(self)@.flags);
                    }
                    return false;
                }
                let st = &mut self.streams[i];
                let id = st.next_id;
                st.entries.push(StreamEntry { id, payload });
                st.next_id = id + 1;
                proof {
                    lemma_find_key_props(old(self)@.streams, stream_name@);
                    let old_model = old(self)@.streams[i as int].1;
                    assert(final(self).streams@[i as int]@.entries =~= old_model.entries.push(
                        (id, payload_view),
                    ));
                    assert(final(self)@.streams =~= old(self)@.streams.update(
                        i as int,
                        (stream_name@, final(self).streams@[i as int]@),
                    ));
                    assert(final(self)@.flags =~= old(self)@.flags);
                }
                true
            },
        }
    }

    /// Creates a group for the given stream that consumes entries past the
    /// specified starting id.
    pub fn create_group(&mut self, stream_name: &str, group_name: &str, starting_id: u32) -> (r:
        Result<(), QueueError>)
        ensures
            ({
                let (m2, res) = old(self)@.spec_create_group(
                    stream_name@,
                    group_name@,
                    starting_id as u64,
                );
                final(self)@ == m2 && r == res
            }),
    {
        let idx = self.stream_index(stream_name);
        match idx {
            None => Err(QueueError::NoSuchStream),
            Some(si) => {
                let gname = group_name.to_owned();
                let gi = group_index(&self.streams[si], &gname);
                match gi {
                    Some(_) => Err(QueueError::GroupAlreadyExists),
                    None => {
                        let st = &mut self.streams[si];
                        st.groups.push(
                            ConsumerGroup { name: gname, last_delivered: starting_id as u64 },
                        );
                        proof {
                            lemma_find_key_props(old(self)@.streams, stream_name@);
                            let old_model = old(self)@.streams[si as int].1;
                            assert(final(self).streams@[si as int]@.groups
                                =~= old_model.groups.push((group_name@, starting_id as u64)));
                            assert(final(self)@.streams =~= old(self)@.streams.update(
                                si as int,
                                (stream_name@, final(self).streams@[si as int]@),
                            ));
                            assert(final(self)@.flags =~= old(self)@.flags);
                        }
                        Ok(())
                    },
                }
            },
        }
    }

    /// Reads the next undelivered entry for the group, advancing the group's
    /// cursor, and decodes it.
    ///
    /// The entry is considered delivered once read; a payload that does not
    /// decode is surfaced as a corrupt read, not retried.
    #[allow(unused_variables)]
    pub fn read_stream(
        &mut self,
        stream_name: &str,
        consumer_group: &str,
        consumer_name: &str,
        block_timeout: u32,
    ) -> (r: Result<NewsPost, ReadError>)
        ensures
            ({
                let (m2, res) = old(self)@.spec_read(stream_name@, consumer_group@);
                &&& final(self)@ == m2
                &&& match res {
                    Err(e) => r == Result::<NewsPost, ReadError>::Err(e),
                    Ok(payload) => match spec_decode_post(payload) {
                        Some(pv) => r matches Ok(p) && p@ == pv,
                        None => r == Result::<NewsPost, ReadError>::Err(ReadError::Corrupt),
                    },
                }
            }),
    {
        let idx = self.stream_index(stream_name);
        match idx {
            None => Err(ReadError::NoSuchStream),
            Some(si) => {
                let gname = consumer_group.to_owned();
                let gi = group_index(&self.streams[si], &gname);
                match gi {
                    None => Err(ReadError::NoSuchGroup),
                    Some(gi) => {
                        let last = self.streams[si].groups[gi].last_delivered;
                        let ei = entry_past(&self.streams[si], last);
                        match ei {
                            None => Err(ReadError::NoData),
                            Some(ei) => {
                                let st = &mut self.streams[si];
                                let id = st.entries[ei].id;
                                let g = &mut st.groups[gi];
                                g.last_delivered = id;
                                proof {
                                    lemma_find_key_props(old(self)@.streams, stream_name@);
                                    let old_model = old(self)@.streams[si as int].1;
                                    lemma_find_key_props(old_model.groups, consumer_group@);
                                    assert(final(self).streams@[si as int]@.groups
                                        =~= old_model.groups.update(
                                        gi as int,
                                        (consumer_group@, id),
                                    ));
                                    assert(final(self).streams@[si as int]@.entries
                                        =~= old_model.entries);
                                    assert(final(self)@.streams =~= old(self)@.streams.update(
                                        si as int,
                                        (stream_name@, final(self).streams@[si as int]@),
                                    ));
                                    assert(final(self)@.flags =~= old(self)@.flags);
                                }
                                let decoded = decode_post(self.streams[si].entries[ei].payload.as_slice());
                                match decoded {
                                    Some(p) => Ok(p),
                                    None => Err(ReadError::Corrupt),
                                }
                            },
                        }
                    },
                }
            },
        }
    }
}

fn group_index(st: &Stream, name: &String) -> (r: Option<usize>)
    ensures
        match r {
            Some(i) => 0 <= i < st@.groups.len() && find_key(st@.groups, name@) == i as int,
            None => find_key(st@.groups, name@) == -1,
        },
{
    let mut i: usize = 0;
    while i < st.groups.len()
        invariant
            i <= st.groups@.len(),
            forall|j: int| 0 <= j < i ==> st@.groups[j].0 != name@,
        decreases st.groups@.len() - i,
    {
        if st.groups[i].name == *name {
            proof {
                lemma_find_key_first(st@.groups, name@, i as int);
            }
            return Some(i);
        }
        i += 1;
    }
    proof {
        lemma_find_key_none(st@.groups, name@);
    }
    None
}

fn entry_past(st: &Stream, last: u64) -> (r: Option<usize>)
    ensures
        match r {
            Some(i) => 0 <= i < st@.entries.len() && first_undelivered(st@.entries, last)
                == i as int,
            None => first_undelivered(st@.entries, last) == -1,
        },
{
    let mut i: usize = 0;
    while i < st.entries.len()
        invariant
            i <= st.entries@.len(),
            forall|j: int| 0 <= j < i ==> st@.entries[j].0 <= last,
        decreases st.entries@.len() - i,
    {
        if st.entries[i].id > last {
            proof {
                lemma_first_undelivered_first(st@.entries, last, i as int);
            }
            return Some(i);
        }
        i += 1;
    }
    proof {
        lemma_first_undelivered_none(st@.entries, last);
    }
    None
}

impl StreamModel {
    /// The message-envelope invariant: ids are strictly increasing within
    /// the stream, and every id lies below the id the log will assign next.
    pub open spec fn wf(self) -> bool {
        &&& forall|i: int, j: int|
            0 <= i < j < self.entries.len() ==> self.entries[i].0 < self.entries[j].0
        &&& forall|i: int| 0 <= i < self.entries.len() ==> self.entries[i].0 < self.next_id
    }
}

impl StoreModel {
    /// Every stream of the store keeps the envelope invariant.
    pub open spec fn wf(self) -> bool {
        forall|i: int| 0 <= i < self.streams.len() ==> (#[trigger] self.streams[i].1).wf()
    }
}

/// Appending preserves the envelope invariant: the new entry gets the next
/// id, above every id already in the stream.
pub proof fn lemma_publish_preserves_wf(m: StoreModel, stream: Seq<char>, payload: Seq<u8>)
    requires
        m.wf(),
    ensures
        m.spec_publish(stream, payload).0.wf(),
{
    let (m2, ok) = m.spec_publish(stream, payload);
    let i = find_key(m.streams, stream);
    if i == -1 {
        assert forall|k: int| 0 <= k < m2.streams.len() implies (
        #[trigger] m2.streams[k].1).wf() by {
            if k < m.streams.len() {
                assert(m.streams[k].1.wf());
            }
        }
    } else {
        lemma_find_key_props(m.streams, stream);
        let st = m.streams[i].1;
        if st.next_id < u64::MAX {
            let st2 = m2.streams[i].1;
            assert(st2.entries == st.entries.push((st.next_id, payload)));
            assert forall|a: int, b: int|
                0 <= a < b < st2.entries.len() implies st2.entries[a].0 < st2.entries[b].0 by {
                if b < st.entries.len() {
                    assert(st.entries[a].0 < st.entries[b].0);
                } else {
                    assert(st.entries[a].0 < st.next_id);
                }
            }
            assert forall|k: int| 0 <= k < m2.streams.len() implies (
            #[trigger] m2.streams[k].1).wf() by {
                if k != i {
                    assert(m.streams[k].1.wf());
                }
            }
        }
    }
}

/// Creating a group leaves every stream's entries and next id alone, so the
/// envelope invariant is kept.
pub proof fn lemma_create_group_preserves_wf(
    m: StoreModel,
    stream: Seq<char>,
    group: Seq<char>,
    start: u64,
)
    requires
        m.wf(),
    ensures
        m.spec_create_group(stream, group, start).0.wf(),
{
    let (m2, r) = m.spec_create_group(stream, group, start);
    let si = find_key(m.streams, stream);
    lemma_find_key_props(m.streams, stream);
    assert(m2.streams.len() == m.streams.len());
    assert forall|k: int| 0 <= k < m2.streams.len() implies (#[trigger] m2.streams[k].1).wf() by {
        assert(m.streams[k].1.wf());
        if k == si {
            assert(m2.streams[k].1.entries == m.streams[k].1.entries);
            assert(m2.streams[k].1.next_id == m.streams[k].1.next_id);
        } else {
            assert(m2.streams[k] == m.streams[k]);
        }
    }
}

/// A read moves only a group's cursor, so the envelope invariant is kept.
pub proof fn lemma_read_preserves_wf(m: StoreModel, stream: Seq<char>, group: Seq<char>)
    requires
        m.wf(),
    ensures
        m.spec_read(stream, group).0.wf(),
{
    let (m2, r) = m.spec_read(stream, group);
    let si = find_key(m.streams, stream);
    lemma_find_key_props(m.streams, stream);
    assert(m2.streams.len() == m.streams.len());
    assert forall|k: int| 0 <= k < m2.streams.len() implies (#[trigger] m2.streams[k].1).wf() by {
        assert(m.streams[k].1.wf());
        if k == si {
            assert(m2.streams[k].1.entries == m.streams[k].1.entries);
            assert(m2.streams[k].1.next_id == m.streams[k].1.next_id);
        } else {
            assert(m2.streams[k] == m.streams[k]);
        }
    }
}

/// Within one stream, consumption follows append order: each successful
/// read delivers an entry whose id lies strictly above the group's cursor
/// and moves the cursor to it, so two successive reads by the same group
/// deliver strictly increasing ids and no entry is handed out twice.
pub proof fn lemma_consumption_follows_append_order(
    m: StoreModel,
    stream: Seq<char>,
    group: Seq<char>,
)
    requires
        find_key(m.streams, stream) != -1,
        find_key(m.streams[find_key(m.streams, stream)].1.groups, group) != -1,
    ensures
        ({
            let si = find_key(m.streams, stream);
            let gi = find_key(m.streams[si].1.groups, group);
            let c0 = m.streams[si].1.groups[gi].1;
            let (m1, r1) = m.spec_read(stream, group);
            r1 matches Ok(_) ==> {
                let c1 = m1.streams[si].1.groups[gi].1;
                &&& c1 > c0
                &&& ({
                    let (m2, r2) = m1.spec_read(stream, group);
                    r2 matches Ok(_) ==> m2.streams[si].1.groups[gi].1 > c1
                })
            }
        }),
{
    let si = find_key(m.streams, stream);
    let gi = find_key(m.streams[si].1.groups, group);
    lemma_find_key_props(m.streams, stream);
    let st = m.streams[si].1;
    lemma_find_key_props(st.groups, group);
    let c0 = st.groups[gi].1;
    let (m1, r1) = m.spec_read(stream, group);
    lemma_first_undelivered_props(st.entries, c0);
    let ei = first_undelivered(st.entries, c0);
    if ei != -1 {
        let c1 = st.entries[ei].0;
        let st1 = m1.streams[si].1;
        assert(forall|j: int| 0 <= j < m.streams.len() ==> m1.streams[j].0 == m.streams[j].0);
        lemma_find_key_same_keys(m.streams, m1.streams, stream);
        assert(forall|j: int| 0 <= j < st.groups.len() ==> st1.groups[j].0 == st.groups[j].0);
        lemma_find_key_same_keys(st.groups, st1.groups, group);
        assert(st1.groups[gi].1 == c1);
        assert(c1 > c0);
        let (m2, r2) = m1.spec_read(stream, group);
        lemma_first_undelivered_props(st1.entries, c1);
        let ei2 = first_undelivered(st1.entries, c1);
        if ei2 != -1 {
            assert(forall|j: int| 0 <= j < m1.streams.len() ==> m2.streams[j].0 == m1.streams[j].0);
            assert(forall|j: int|
                0 <= j < st1.groups.len() ==> m2.streams[si].1.groups[j].0 == st1.groups[j].0);
            lemma_find_key_same_keys(st1.groups, m2.streams[si].1.groups, group);
            assert(m2.streams[si].1.groups[gi].1 == st1.entries[ei2].0);
            assert(st1.entries[ei2].0 > c1);
        }
    }
}

/// A dedup lookup that could not reach the store.
#[derive(Debug, PartialEq, Eq, Structural, Clone, Copy)]
pub struct StoreUnavailable;

/// Interprets a dedup lookup whose store may have been unreachable: the
/// lookup fails open, reading as "not seen", so a transient store outage
/// costs at most a duplicate publish and never stalls ingestion.
pub fn interpret_seen_lookup(result: &Result<bool, StoreUnavailable>) -> (r: bool)
    ensures
        r == (*result == Ok::<bool, StoreUnavailable>(true)),
{
    match result {
        Ok(b) => *b,
        Err(_) => false,
    }
}

/// Enqueue-then-consume round trip: a post published to a fresh stream and
/// then consumed once through a group created at the stream's start comes
/// back equal to the post that went in.
pub proof fn lemma_enqueue_consume_round_trip(
    m: StoreModel,
    stream: Seq<char>,
    group: Seq<char>,
    p: PostView,
)
    requires
        find_key(m.streams, stream) == -1,
        post_fits(p),
    ensures
        ({
            let (m1, ok) = m.spec_publish(stream, spec_encode_post(p));
            let (m2, created) = m1.spec_create_group(stream, group, 0);
            let (m3, res) = m2.spec_read(stream, group);
            &&& ok
            &&& created is Ok
            &&& res matches Ok(payload) && spec_decode_post(payload) == Some(p)
        }),
{
    let payload = spec_encode_post(p);
    let (m1, ok) = m.spec_publish(stream, payload);
    let si = m.streams.len() as int;
    lemma_find_key_props(m.streams, stream);
    lemma_find_key_first(m1.streams, stream, si);
    let st1 = m1.streams[si].1;
    assert(st1.entries =~= seq![(1u64, payload)]);
    lemma_find_key_none(st1.groups, group);
    let (m2, created) = m1.spec_create_group(stream, group, 0);
    assert(forall|j: int| 0 <= j < m1.streams.len() ==> m2.streams[j].0 == m1.streams[j].0);
    lemma_find_key_same_keys(m1.streams, m2.streams, stream);
    let st2 = m2.streams[si].1;
    lemma_find_key_first(st2.groups, group, 0);
    lemma_first_undelivered_first(st2.entries, 0, 0);
    let (m3, res) = m2.spec_read(stream, group);
    assert(res == Result::<Seq<u8>, ReadError>::Ok(payload));
    lemma_codec_round_trip(p);
}

/// Creating a group that already exists is a handled, non-fatal condition:
/// the store is unchanged, the result names the condition, and a later read
/// proceeds exactly as it would have without the attempt.
pub proof fn lemma_create_group_existing_is_harmless(
    m: StoreModel,
    stream: Seq<char>,
    group: Seq<char>,
    start: u64,
)
    requires
        ({
            let si = find_key(m.streams, stream);
            si != -1 && find_key(m.streams[si].1.groups, group) != -1
        }),
    ensures
        ({
            let (m2, res) = m.spec_create_group(stream, group, start);
            &&& m2 == m
            &&& res == Result::<(), QueueError>::Err(QueueError::GroupAlreadyExists)
            &&& m2.spec_read(stream, group) == m.spec_read(stream, group)
        }),
{
}

/// Marking one key leaves every other key's visibility unchanged, and makes
/// the marked key's expiry the one just written.
proof fn lemma_flag_frame(s1: Seq<(Seq<u8>, u64)>, s2: Seq<(Seq<u8>, u64)>, key: Seq<u8>)
    requires
        ({
            let i = find_key(s1, key);
            if i == -1 {
                exists|e: u64| s2 == s1.push((key, e))
            } else {
                exists|e: u64| s2 == s1.update(i, (key, e))
            }
        }),
    ensures
        forall|k: Seq<u8>| k != key ==> #[trigger] find_key(s2, k) == find_key(s1, k),
        forall|k: Seq<u8>|
            k != key && find_key(s1, k) != -1 ==> s2[find_key(s1, k)] == s1[find_key(s1, k)],
        find_key(s2, key) != -1,
        ({
            let i = find_key(s1, key);
            if i == -1 {
                find_key(s2, key) == s1.len() as int
            } else {
                find_key(s2, key) == i
            }
        }),
{
    let i = find_key(s1, key);
    lemma_find_key_props(s1, key);
    if i == -1 {
        let e = choose|e: u64| s2 == s1.push((key, e));
        lemma_find_key_first(s2, key, s1.len() as int);
        assert forall|k: Seq<u8>| k != key implies #[trigger] find_key(s2, k) == find_key(
            s1,
            k,
        ) by {
            lemma_find_key_props(s1, k);
            let j = find_key(s1, k);
            if j == -1 {
                lemma_find_key_none(s2, k);
            } else {
                lemma_find_key_first(s2, k, j);
            }
        }
        assert forall|k: Seq<u8>| k != key && find_key(s1, k) != -1 implies s2[find_key(
            s1,
            k,
        )] == s1[find_key(s1, k)] by {
            lemma_find_key_props(s1, k);
        }
    } else {
        let e = choose|e: u64| s2 == s1.update(i, (key, e));
        assert(forall|j: int| 0 <= j < s1.len() ==> s2[j].0 == s1[j].0);
        assert forall|k: Seq<u8>| k != key implies #[trigger] find_key(s2, k) == find_key(
            s1,
            k,
        ) by {
            lemma_find_key_same_keys(s1, s2, k);
        }
        assert forall|k: Seq<u8>| k != key && find_key(s1, k) != -1 implies s2[find_key(
            s1,
            k,
        )] == s1[find_key(s1, k)] by {
            lemma_find_key_props(s1, k);
            assert(s1[find_key(s1, k)].0 == k);
            assert(find_key(s1, k) != i);
        }
        lemma_find_key_same_keys(s1, s2, key);
    }
}

} // verus!
