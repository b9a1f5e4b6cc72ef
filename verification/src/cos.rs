//! The chunked multipart upload engine: one session against one bucket. The
//! engine splits a byte stream into fixed-size labeled parts, has them
//! uploaded with bounded concurrency, collects the per-part integrity tags,
//! and finalizes the session with an ordered completion manifest followed by
//! a fetch trigger. The HTTP transfers themselves are the caller's; this
//! module decides what is sent, in which order, and what each response means.

use vstd::prelude::*;
use vstd::multiset::Multiset;
use vstd::string::StrSliceExecFns;
use vstd::string::StringExecFns;
use vstd::arithmetic::div_mod::lemma_fundamental_div_mod;
use vstd::arithmetic::div_mod::lemma_fundamental_div_mod_converse_div;
use crate::strutil::assoc_find;
use crate::strutil::assoc_lookup;
use crate::strutil::file_stem;
use crate::strutil::find_first;
use crate::strutil::find_last;
use crate::strutil::matches_at;
use crate::strutil::replace_all;
use crate::strutil::spec_dec;
use crate::strutil::spec_file_stem;
use crate::strutil::spec_replace;
use crate::strutil::u64_to_dec;
use crate::Video;

verus! {

/// Fixed size in bytes of every chunk but the last.
pub const CHUNK_SIZE: u64 = 10485760;

/// Externally supplied descriptor of one upload target, immutable for the
/// lifetime of a session.
#[derive(Debug)]
pub struct Bucket {
    pub ok: u8,
    pub bili_filename: String,
    pub biz_id: usize,
    pub fetch_headers: Vec<(String, String)>,
    pub fetch_url: String,
    pub fetch_urls: Vec<String>,
    pub post_auth: String,
    pub put_auth: String,
    pub url: String,
}

/// Query parameters that address one part of one session on the wire,
/// serialized with the platform's camel-cased field names.
pub struct Protocol {
    pub upload_id: String,
    pub part_number: u32,
}

impl Protocol {
    /// The query string of a part PUT, exactly as the platform expects it.
    /// The session identifier is taken verbatim, with no percent-encoding:
    /// the platform issues identifiers made of URL-safe characters only.
    pub fn query_string(&self) -> (r: String)
        ensures
            r@ == "uploadId="@ + self.upload_id@ + "&partNumber="@ + spec_dec(
                self.part_number as int,
            ),
    {
        let mut r = String::from_str("uploadId=");
        r.append(self.upload_id.as_str());
        r.append("&partNumber=");
        let num = u64_to_dec(self.part_number as u64);
        r.append(num.as_str());
        r
    }
}

/// Fatal failure of one part upload: a non-success status or a response
/// without an integrity tag. Never retried; aborts the whole upload.
#[derive(Debug)]
pub struct ChunkUploadError {
    /// 1-based number of the offending part.
    pub part: usize,
    /// Raw response body text, kept verbatim for diagnosis.
    pub body: String,
}

impl ChunkUploadError {
    /// Diagnostic rendering: names the part and carries the response body.
    pub fn message(&self) -> (r: String)
        ensures
            r@ == "upload chunk "@ + spec_dec(self.part as int) + " error: "@ + self.body@,
    {
        let mut r = String::from_str("upload chunk ");
        let num = u64_to_dec(self.part as u64);
        r.append(num.as_str());
        r.append(" error: ");
        r.append(self.body.as_str());
        r
    }
}

/// Fatal failure of a session-level call (initialization, completion, fetch
/// trigger), carrying the raw response body verbatim.
#[derive(Debug)]
pub struct SessionError {
    pub body: String,
}

/// Opening tag bracketing the session identifier in the initialization
/// response.
pub open spec fn open_marker() -> Seq<char> {
    "<UploadId>"@
}

/// Closing tag bracketing the session identifier in the initialization
/// response.
pub open spec fn close_marker() -> Seq<char> {
    "</UploadId>"@
}

/// `n` occurs in `h` at `i` and nowhere earlier.
pub open spec fn is_first_at(h: Seq<char>, n: Seq<char>, i: int) -> bool {
    matches_at(h, n, i) && forall|j: int| 0 <= j < i ==> !matches_at(h, n, j)
}

/// `n` occurs in `h` at `i` and nowhere later.
pub open spec fn is_last_at(h: Seq<char>, n: Seq<char>, i: int) -> bool {
    matches_at(h, n, i) && forall|j: int| i < j ==> !matches_at(h, n, j)
}

/// The initialization response carries a well-formed bracketed session
/// identifier: the first opening marker ends at or before the last closing
/// marker.
pub open spec fn marker_pair(body: Seq<char>, s: int, e: int) -> bool {
    is_first_at(body, open_marker(), s) && is_last_at(body, close_marker(), e) && s
        + open_marker().len() <= e
}

/// The session identifier the initialization response carries: the text
/// between the first opening marker and the last closing marker, or `None`
/// when the markers are absent or inverted.
pub open spec fn spec_upload_id(body: Seq<char>) -> Option<Seq<char>> {
    if exists|s: int, e: int| marker_pair(body, s, e) {
        let (s, e) = choose|s: int, e: int| marker_pair(body, s, e);
        Some(body.subrange(s + open_marker().len(), e))
    } else {
        None
    }
}

/// Positions forming a marker pair are unique: there is one first opening
/// marker and one last closing marker.
proof fn lemma_marker_pair_unique(body: Seq<char>, s1: int, e1: int, s2: int, e2: int)
    requires
        marker_pair(body, s1, e1),
        marker_pair(body, s2, e2),
    ensures
        s1 == s2,
        e1 == e2,
{
    assert(matches_at(body, open_marker(), s1));
    assert(matches_at(body, open_marker(), s2));
    assert(matches_at(body, close_marker(), e1));
    assert(matches_at(body, close_marker(), e2));
}

/// Extract the session identifier from the initialization response body, as
/// [`spec_upload_id`] describes; when it is absent the whole raw body comes
/// back as the error.
pub fn parse_upload_id(body: &str) -> (r: Result<String, SessionError>)
    ensures
        match r {
            Ok(id) => spec_upload_id(body@) == Some(id@),
            Err(err) => spec_upload_id(body@) is None && err.body@ == body@,
        },
{
    let open = "<UploadId>";
    let close = "</UploadId>";
    proof {
        reveal_strlit("<UploadId>");
        reveal_strlit("</UploadId>");
    }
    let b_len = body.unicode_len();
    proof {
        assert(b_len == body@.len());
    }
    let o_len = open.unicode_len();
    let found_open = find_first(body, open);
    let found_close = find_last(body, close);
    match (found_open, found_close) {
        (Some(s), Some(e)) => {
            let start = s + o_len;
            if start <= e {
                proof {
                    assert(marker_pair(body@, s as int, e as int));
                    let (s2, e2) = choose|s2: int, e2: int| marker_pair(body@, s2, e2);
                    lemma_marker_pair_unique(body@, s as int, e as int, s2, e2);
                }
                let id = body.substring_char(start, e);
                Ok(String::from_str(id))
            } else {
                proof {
                    if exists|s2: int, e2: int| marker_pair(body@, s2, e2) {
                        let (s2, e2) = choose|s2: int, e2: int| marker_pair(body@, s2, e2);
                        lemma_marker_pair_unique(body@, s2, e2, s as int, e as int);
                    }
                }
                Err(SessionError { body: String::from_str(body) })
            }
        },
        _ => {
            proof {
                if exists|s2: int, e2: int| marker_pair(body@, s2, e2) {
                    let (s2, e2) = choose|s2: int, e2: int| marker_pair(body@, s2, e2);
                    assert(matches_at(body@, open_marker(), s2));
                    assert(matches_at(body@, close_marker(), e2));
                }
            }
            Err(SessionError { body: String::from_str(body) })
        },
    }
}

/// One live multipart upload session: the bucket it targets and the session
/// identifier obtained at construction. A new session means a new value; the
/// retrying and raw HTTP clients it drives belong to the caller.
#[derive(Debug)]
pub struct Cos {
    pub bucket: Bucket,
    pub upload_id: String,
}

impl Cos {
    /// URL of the session-initialization POST for `bucket`.
    pub fn init_url(bucket: &Bucket) -> (r: String)
        ensures
            r@ == bucket.url@ + "?uploads&output=json"@,
    {
        let mut r = String::from_str(bucket.url.as_str());
        r.append("?uploads&output=json");
        r
    }

    /// Open the session: bind the bucket to the session identifier parsed
    /// out of the initialization response, or surface that response when no
    /// identifier is bracketed in it.
    pub fn form_post(bucket: Bucket, init_response: &str) -> (r: Result<Cos, SessionError>)
        ensures
            match r {
                Ok(c) => c.bucket == bucket && spec_upload_id(init_response@) == Some(
                    c.upload_id@,
                ),
                Err(err) => spec_upload_id(init_response@) is None && err.body@
                    == init_response@,
            },
    {
        match parse_upload_id(init_response) {
            Ok(upload_id) => Ok(Cos { bucket, upload_id }),
            Err(err) => Err(err),
        }
    }

    /// The endpoint part PUTs go to: the bucket URL, with the accelerated
    /// host swapped for the internal-network host when asked to.
    pub fn upload_url(&self, enable_internal: bool) -> (r: String)
        ensures
            enable_internal ==> r@ == spec_replace(
                self.bucket.url@,
                "cos.accelerate"@,
                "cos-internal.ap-shanghai"@,
            ),
            !enable_internal ==> r@ == self.bucket.url@,
    {
        if enable_internal {
            proof {
                reveal_strlit("cos.accelerate");
            }
            replace_all(self.bucket.url.as_str(), "cos.accelerate", "cos-internal.ap-shanghai")
        } else {
            String::from_str(self.bucket.url.as_str())
        }
    }
}

/// Number of fixed-size chunks covering `total_size` bytes.
pub open spec fn spec_chunks_num(total_size: int) -> int {
    (total_size + CHUNK_SIZE as int - 1) / (CHUNK_SIZE as int)
}

/// Chunk count of an upload of `total_size` bytes: the least number of
/// [`CHUNK_SIZE`]-byte parts that covers it.
pub fn chunks_num(total_size: u64) -> (r: u64)
    ensures
        r as int == spec_chunks_num(total_size as int),
        total_size == 0 ==> r == 0,
        total_size as int <= (r as int) * (CHUNK_SIZE as int),
        total_size > 0 ==> ((r as int - 1) * (CHUNK_SIZE as int)) < total_size as int,
{
    let d = total_size / CHUNK_SIZE;
    let m = total_size % CHUNK_SIZE;
    proof {
        let n = total_size as int;
        let k = CHUNK_SIZE as int;
        lemma_fundamental_div_mod(n, k);
        if m == 0 {
            lemma_fundamental_div_mod_converse_div(n + k - 1, k, d as int, k - 1);
        } else {
            lemma_fundamental_div_mod_converse_div(n + k - 1, k, d as int + 1, m as int - 1);
        }
    }
    if m == 0 {
        d
    } else {
        d + 1
    }
}

/// Meaning of one finished part upload: on a success status carrying an
/// integrity tag the part is complete under its 1-based number; a
/// non-success status, or a response without an integrity tag, is a fatal
/// failure naming the part and keeping the response body. Neither is ever
/// retried.
pub fn chunk_outcome(part_index: usize, success: bool, etag: Option<String>, body: String) -> (r:
    Result<(usize, String), ChunkUploadError>)
    requires
        part_index < usize::MAX,
    ensures
        match r {
            Ok(p) => success && (etag matches Some(t) && p.0 == part_index + 1 && p.1 == t),
            Err(e) => (!success || etag is None) && e.part == part_index + 1 && e.body == body,
        },
{
    if success {
        match etag {
            Some(t) => Ok((part_index + 1, t)),
            None => Err(ChunkUploadError { part: part_index + 1, body }),
        }
    } else {
        Err(ChunkUploadError { part: part_index + 1, body })
    }
}

/// No part number occurs twice in `s`.
pub open spec fn distinct_nums(s: Seq<(usize, String)>) -> bool {
    forall|i: int, j: int| 0 <= i < j < s.len() ==> s[i].0 != s[j].0
}

/// Some collected part carries the number `p`.
pub open spec fn has_num(s: Seq<(usize, String)>, p: usize) -> bool {
    exists|i: int| 0 <= i < s.len() && s[i].0 == p
}

/// Part numbers never decrease along `s`.
pub open spec fn sorted_by_num(s: Seq<(usize, String)>) -> bool {
    forall|i: int, j: int| 0 <= i < j < s.len() ==> s[i].0 <= s[j].0
}

/// Bookkeeping of one bounded-concurrency upload: which part is dispatched
/// next, how many uploads are in flight, what has completed, and whether a
/// fatal error has been observed. Part numbers are 1-based and handed out in
/// input order; completions may arrive in any order.
pub struct UploadTracker {
    /// Total number of chunks of this upload.
    pub chunks_num: usize,
    /// Bound on simultaneously in-flight chunk uploads.
    pub limit: usize,
    /// 1-based number of the next chunk to dispatch.
    pub next_part: usize,
    /// Chunk uploads currently in flight.
    pub in_flight: usize,
    /// A fatal error has been observed; nothing further is dispatched.
    pub failed: bool,
    /// Completion tokens collected so far, in completion order.
    pub parts: Vec<(usize, String)>,
}

impl UploadTracker {
    /// Internal consistency of the bookkeeping.
    pub open spec fn wf(self) -> bool {
        &&& self.chunks_num < usize::MAX
        &&& 1 <= self.next_part <= self.chunks_num + 1
        &&& self.in_flight <= self.limit
        &&& self.parts@.len() + self.in_flight <= self.next_part - 1
        &&& (!self.failed ==> self.parts@.len() + self.in_flight == self.next_part - 1)
        &&& distinct_nums(self.parts@)
        &&& forall|i: int|
            0 <= i < self.parts@.len() ==> 1 <= (#[trigger] self.parts@[i]).0 < self.next_part
    }

    /// A fresh tracker: nothing dispatched, nothing in flight.
    pub fn new(chunks_num: usize, limit: usize) -> (r: UploadTracker)
        requires
            chunks_num < usize::MAX,
            limit >= 1,
        ensures
            r.wf(),
            r.chunks_num == chunks_num,
            r.limit == limit,
            r.next_part == 1,
            r.in_flight == 0,
            !r.failed,
            r.parts@.len() == 0,
    {
        UploadTracker {
            chunks_num,
            limit,
            next_part: 1,
            in_flight: 0,
            failed: false,
            parts: Vec::new(),
        }
    }

    /// Hand out the next part number to upload. A part is owed — and is
    /// handed out — exactly when no failure has been observed, a worker slot
    /// is free, and chunks remain; after a failure has been observed,
    /// nothing is ever dispatched again.
    pub fn try_dispatch(&mut self) -> (r: Option<usize>)
        requires
            old(self).wf(),
        ensures
            final(self).wf(),
            old(self).failed ==> r is None,
            r is None ==> *final(self) == *old(self),
            r is None ==> (old(self).failed || old(self).in_flight >= old(self).limit || old(
                self,
            ).next_part > old(self).chunks_num),
            r matches Some(p) ==> {
                &&& !old(self).failed
                &&& old(self).in_flight < old(self).limit
                &&& old(self).next_part <= old(self).chunks_num
                &&& p == old(self).next_part
                &&& final(self).next_part == old(self).next_part + 1
                &&& final(self).in_flight == old(self).in_flight + 1
                &&& final(self).chunks_num == old(self).chunks_num
                &&& final(self).limit == old(self).limit
                &&& final(self).failed == old(self).failed
                &&& final(self).parts == old(self).parts
            },
    {
        if self.failed || self.in_flight >= self.limit || self.next_part > self.chunks_num {
            None
        } else {
            let p = self.next_part;
            self.next_part = self.next_part + 1;
            self.in_flight = self.in_flight + 1;
            Some(p)
        }
    }

    /// Whether some collected part already carries the number `p`.
    pub fn has_part(&self, p: usize) -> (r: bool)
        ensures
            r == has_num(self.parts@, p),
    {
        let mut i: usize = 0;
        while i < self.parts.len()
            invariant
                0 <= i <= self.parts@.len(),
                forall|j: int| 0 <= j < i ==> (#[trigger] self.parts@[j]).0 != p,
            decreases self.parts@.len() - i,
        {
            if self.parts[i].0 == p {
                return true;
            }
            i += 1;
        }
        false
    }

    /// Record the completion token of a dispatched part.
    pub fn on_chunk_success(&mut self, part: usize, etag: String)
        requires
            old(self).wf(),
            old(self).in_flight >= 1,
            1 <= part < old(self).next_part,
            !has_num(old(self).parts@, part),
        ensures
            final(self).wf(),
            final(self).parts@ == old(self).parts@.push((part, etag)),
            final(self).in_flight == old(self).in_flight - 1,
            final(self).next_part == old(self).next_part,
            final(self).chunks_num == old(self).chunks_num,
            final(self).limit == old(self).limit,
            final(self).failed == old(self).failed,
    {
        self.parts.push((part, etag));
        self.in_flight = self.in_flight - 1;
    }

    /// Record a fatal failure of a dispatched part. From here on
    /// [`UploadTracker::try_dispatch`] yields nothing.
    pub fn on_chunk_failure(&mut self)
        requires
            old(self).wf(),
            old(self).in_flight >= 1,
        ensures
            final(self).wf(),
            final(self).failed,
            final(self).in_flight == old(self).in_flight - 1,
            final(self).next_part == old(self).next_part,
            final(self).chunks_num == old(self).chunks_num,
            final(self).limit == old(self).limit,
            final(self).parts == old(self).parts,
    {
        self.failed = true;
        self.in_flight = self.in_flight - 1;
    }

    /// The upload is complete: every chunk was dispatched and finished
    /// successfully. A complete tracker holds exactly one token per chunk.
    pub fn is_complete(&self) -> (r: bool)
        requires
            self.wf(),
        ensures
            r == (!self.failed && self.next_part == self.chunks_num + 1 && self.in_flight == 0),
            r ==> self.parts@.len() == self.chunks_num,
    {
        !self.failed && self.next_part == self.chunks_num + 1 && self.in_flight == 0
    }
}

/// Inserting an element anywhere in a sequence adds exactly it to the
/// multiset of elements.
proof fn lemma_insert_to_multiset(s: Seq<(usize, String)>, i: int, a: (usize, String))
    requires
        0 <= i <= s.len(),
    ensures
        s.insert(i, a).to_multiset() == s.to_multiset().insert(a),
{
    broadcast use vstd::seq_lib::group_to_multiset_ensures;
    broadcast use vstd::multiset::group_multiset_axioms;

    let pre = s.subrange(0, i);
    let post = s.subrange(i, s.len() as int);
    vstd::seq_lib::lemma_multiset_commutative(pre.push(a), post);
    vstd::seq_lib::lemma_multiset_commutative(pre, post);
    assert(pre + post =~= s);
    assert(pre.push(a).to_multiset() =~= pre.to_multiset().insert(a));
    assert(pre.to_multiset().insert(a).add(post.to_multiset()) =~= pre.to_multiset().add(
        post.to_multiset(),
    ).insert(a));
}

/// Sort the collected parts ascending by part number, as the completion
/// manifest requires; what was collected is kept exactly, as a multiset.
pub fn sort_parts(parts: &mut Vec<(usize, String)>)
    ensures
        sorted_by_num(final(parts)@),
        final(parts)@.to_multiset() == old(parts)@.to_multiset(),
{
    proof {
        broadcast use vstd::seq_lib::group_to_multiset_ensures;
        broadcast use vstd::multiset::group_multiset_axioms;

    }
    let ghost orig = parts@;
    let mut out: Vec<(usize, String)> = Vec::new();
    proof {
        assert(out@.to_multiset().add(parts@.to_multiset()) =~= orig.to_multiset());
    }
    loop
        invariant
            sorted_by_num(out@),
            out@.to_multiset().add(parts@.to_multiset()) == orig.to_multiset(),
        ensures
            parts@.len() == 0,
            sorted_by_num(out@),
            out@.to_multiset().add(parts@.to_multiset()) == orig.to_multiset(),
        decreases parts@.len(),
    {
        let ghost before = parts@;
        match parts.pop() {
            Some(p) => {
                proof {
                    broadcast use vstd::seq_lib::group_to_multiset_ensures;
                    broadcast use vstd::multiset::group_multiset_axioms;

                    assert(parts@.push(p) =~= before);
                    assert(parts@.push(p).to_multiset() =~= parts@.to_multiset().insert(p));
                }
                let mut j: usize = 0;
                while j < out.len() && out[j].0 <= p.0
                    invariant
                        0 <= j <= out@.len(),
                        forall|k: int| 0 <= k < j ==> (#[trigger] out@[k]).0 <= p.0,
                    decreases out@.len() - j,
                {
                    j += 1;
                }
                let ghost out_before = out@;
                proof {
                    out_before.insert_ensures(j as int, p);
                    lemma_insert_to_multiset(out_before, j as int, p);
                }
                out.insert(j, p);
                proof {
                    assert(sorted_by_num(out@)) by {
                        assert forall|x: int, y: int| 0 <= x < y < out@.len() implies out@[x].0
                            <= out@[y].0 by {
                            if y < j {
                                assert(out@[x] == out_before[x] && out@[y] == out_before[y]);
                            } else if y == j {
                                assert(out@[x] == out_before[x]);
                            } else if x == j {
                                assert(out@[y] == out_before[y - 1]);
                                assert(out_before[j as int].0 > p.0 || j == out_before.len());
                            } else if x < j {
                                assert(out@[x] == out_before[x] && out@[y] == out_before[y - 1]);
                            } else {
                                assert(out@[x] == out_before[x - 1] && out@[y] == out_before[y
                                    - 1]);
                            }
                        }
                    }
                }
            },
            None => {
                break ;
            },
        }
    }
    proof {
        broadcast use vstd::seq_lib::group_to_multiset_ensures;
        broadcast use vstd::multiset::group_multiset_axioms;

        assert(parts@.to_multiset() =~= Multiset::empty());
        assert(out@.to_multiset() =~= orig.to_multiset());
    }
    *parts = out;
}

/// One `<Part>` entry of the completion manifest: part number, then
/// integrity tag, indented as the platform receives it.
pub open spec fn spec_part_xml(num: int, etag: Seq<char>) -> Seq<char> {
    "\n    <Part>\n        <PartNumber>"@ + spec_dec(num) + "</PartNumber>\n        <ETag>"@
        + etag + "</ETag>\n    </Part>\n    "@
}

/// The `<Part>` entries of `parts`, in sequence order.
pub open spec fn spec_parts_xml(parts: Seq<(usize, String)>) -> Seq<char>
    decreases parts.len(),
{
    if parts.len() == 0 {
        Seq::empty()
    } else {
        spec_part_xml(parts[0].0 as int, parts[0].1@) + spec_parts_xml(parts.drop_first())
    }
}

/// The whole completion manifest for `parts`, entries in sequence order.
pub open spec fn spec_manifest(parts: Seq<(usize, String)>) -> Seq<char> {
    "\n    <CompleteMultipartUpload>\n    "@ + spec_parts_xml(parts)
        + "\n    </CompleteMultipartUpload>\n    "@
}

fn build_part_xml(num: usize, etag: &str) -> (r: String)
    ensures
        r@ == spec_part_xml(num as int, etag@),
{
    let mut r = String::from_str("\n    <Part>\n        <PartNumber>");
    let dec = u64_to_dec(num as u64);
    r.append(dec.as_str());
    r.append("</PartNumber>\n        <ETag>");
    r.append(etag);
    r.append("</ETag>\n    </Part>\n    ");
    proof {
        assert(r@ =~= spec_part_xml(num as int, etag@));
    }
    r
}

/// Build the completion manifest for `parts` exactly as
/// [`spec_manifest`] lays it out.
pub fn build_manifest(parts: &Vec<(usize, String)>) -> (r: String)
    ensures
        r@ == spec_manifest(parts@),
{
    let mut acc = String::from_str("\n    <CompleteMultipartUpload>\n    ");
    proof {
        assert(parts@.skip(0) =~= parts@);
    }
    let mut i: usize = 0;
    while i < parts.len()
        invariant
            0 <= i <= parts@.len(),
            acc@ + spec_parts_xml(parts@.skip(i as int))
                == "\n    <CompleteMultipartUpload>\n    "@ + spec_parts_xml(parts@),
        decreases parts@.len() - i,
    {
        let ghost acc_before = acc@;
        let ghost rem = parts@.skip(i as int);
        let entry = build_part_xml(parts[i].0, parts[i].1.as_str());
        acc.append(entry.as_str());
        proof {
            assert(rem[0] == parts@[i as int]);
            assert(rem.drop_first() =~= parts@.skip(i + 1));
            assert(spec_parts_xml(rem) == entry@ + spec_parts_xml(parts@.skip(i + 1)));
            assert(acc@ + spec_parts_xml(parts@.skip(i + 1)) =~= acc_before + spec_parts_xml(
                rem,
            ));
        }
        i += 1;
    }
    proof {
        assert(parts@.skip(parts@.len() as int) =~= Seq::<(usize, String)>::empty());
        assert(acc@ + spec_parts_xml(parts@.skip(parts@.len() as int)) =~= acc@);
    }
    acc.append("\n    </CompleteMultipartUpload>\n    ");
    proof {
        assert(acc@ =~= spec_manifest(parts@));
    }
    acc
}

/// Finalization is independent of collection order: two part lists that hold
/// the same parts (as a multiset), each with pairwise-distinct part numbers
/// and each sorted ascending by part number, are the same list — so they
/// yield byte-identical completion manifests. Since completions are sorted
/// before the manifest is built, the order in which parts finished cannot
/// change what is committed.
pub proof fn lemma_sorted_parts_unique(a: Seq<(usize, String)>, b: Seq<(usize, String)>)
    requires
        sorted_by_num(a),
        sorted_by_num(b),
        distinct_nums(a),
        distinct_nums(b),
        a.to_multiset() == b.to_multiset(),
    ensures
        a == b,
        spec_manifest(a) == spec_manifest(b),
    decreases a.len(),
{
    broadcast use vstd::seq_lib::group_to_multiset_ensures;
    broadcast use vstd::multiset::group_multiset_axioms;

    if a.len() == 0 {
        assert(b.len() == b.to_multiset().len());
        assert(a =~= b);
    } else {
        assert(a.to_multiset().len() > 0);
        assert(b.len() == b.to_multiset().len());
        assert(b.len() > 0);
        assert(a.contains(a[0])) by {
            assert(a[0] == a[0]);
        }
        assert(b.contains(b[0])) by {
            assert(b[0] == b[0]);
        }
        assert(a.to_multiset().count(a[0]) > 0);
        assert(b.to_multiset().count(b[0]) > 0);
        assert(b.to_multiset().count(a[0]) > 0);
        assert(a.to_multiset().count(b[0]) > 0);
        assert(b.contains(a[0]));
        assert(a.contains(b[0]));
        let k = choose|k: int| 0 <= k < b.len() && b[k] == a[0];
        let j = choose|j: int| 0 <= j < a.len() && a[j] == b[0];
        assert(a[0].0 <= a[j].0 && b[0].0 <= b[k].0);
        assert(a[0].0 == b[0].0);
        assert(j == 0);
        assert(a[0] == b[0]);
        let a1 = a.drop_first();
        let b1 = b.drop_first();
        assert(a.remove(0) =~= a1);
        assert(b.remove(0) =~= b1);
        assert(a1.to_multiset() =~= a.to_multiset().remove(a[0]));
        assert(b1.to_multiset() =~= b.to_multiset().remove(b[0]));
        lemma_sorted_parts_unique(a1, b1);
        assert(a.len() == a.to_multiset().len());
        assert(a.len() == b.len());
        assert forall|i: int| 0 <= i < a.len() implies a[i] == b[i] by {
            if i > 0 {
                assert(a1[i - 1] == b1[i - 1]);
            }
        }
        assert(a =~= b);
    }
}

/// Phase of one finalization: the completion POST, then the fetch-trigger
/// POST, then done — or failed at either step.
#[derive(Clone, Copy, PartialEq, Eq, Structural, Debug)]
pub enum MergePhase {
    Committing,
    Fetching,
    Done,
    Failed,
}

/// The session-level completion POST: where it goes, how it is addressed and
/// authenticated, and the ordered manifest it carries.
pub struct CommitRequest {
    /// Destination: the bucket's base URL.
    pub url: String,
    /// Value of the `uploadId` query parameter.
    pub upload_id: String,
    /// Value of the `Authorization` header: the bucket's session-level token.
    pub auth: String,
    /// The completion manifest, parts in strictly ascending part order.
    pub body: String,
}

/// The fetch-trigger POST that materializes the assembled object inside the
/// destination platform, carrying three bucket-supplied headers verbatim.
#[derive(Debug)]
pub struct FetchRequest {
    /// Destination: `https:` in front of the bucket's fetch URL.
    pub url: String,
    /// Value of the `X-Upos-Fetch-Source` header.
    pub fetch_source: String,
    /// Value of the `X-Upos-Auth` header.
    pub fetch_auth: String,
    /// Value of the `Fetch-Header-Authorization` header.
    pub fetch_header_auth: String,
}

/// Progress of one finalization. A fetch-trigger request can only be
/// obtained from a successful completion response, so a session whose
/// completion POST fails never attempts the fetch trigger.
pub struct MergeFlow {
    pub phase: MergePhase,
}

impl Cos {
    /// Begin finalization: sort the collected parts ascending by part
    /// number, build the ordered completion manifest, and address it to the
    /// session. The caller sends the returned request and reports the
    /// response to [`MergeFlow::on_commit_response`].
    pub fn merge_files(&self, parts: &mut Vec<(usize, String)>) -> (r: (MergeFlow, CommitRequest))
        requires
            old(parts)@.len() > 0,
        ensures
            sorted_by_num(final(parts)@),
            final(parts)@.to_multiset() == old(parts)@.to_multiset(),
            r.0.phase is Committing,
            r.1.url@ == self.bucket.url@,
            r.1.upload_id@ == self.upload_id@,
            r.1.auth@ == self.bucket.post_auth@,
            r.1.body@ == spec_manifest(final(parts)@),
    {
        sort_parts(parts);
        let body = build_manifest(parts);
        let req = CommitRequest {
            url: String::from_str(self.bucket.url.as_str()),
            upload_id: String::from_str(self.upload_id.as_str()),
            auth: String::from_str(self.bucket.post_auth.as_str()),
            body,
        };
        (MergeFlow { phase: MergePhase::Committing }, req)
    }
}

impl MergeFlow {
    /// Meaning of the completion response. A non-success response is fatal:
    /// it surfaces the response body verbatim and the fetch trigger is never
    /// attempted. On success the fetch-trigger request is assembled from the
    /// bucket's fetch URL and its three fetch headers, taken verbatim.
    pub fn on_commit_response(&mut self, cos: &Cos, success: bool, body: String) -> (r: Result<
        FetchRequest,
        SessionError,
    >)
        requires
            old(self).phase is Committing,
            success ==> assoc_find(cos.bucket.fetch_headers@, "X-Upos-Fetch-Source"@) is Some,
            success ==> assoc_find(cos.bucket.fetch_headers@, "X-Upos-Auth"@) is Some,
            success ==> assoc_find(
                cos.bucket.fetch_headers@,
                "Fetch-Header-Authorization"@,
            ) is Some,
        ensures
            !success ==> final(self).phase is Failed && (r matches Err(e) && e.body == body),
            success ==> final(self).phase is Fetching && (r matches Ok(f) && {
                &&& f.url@ == "https:"@ + cos.bucket.fetch_url@
                &&& assoc_find(cos.bucket.fetch_headers@, "X-Upos-Fetch-Source"@) == Some(
                    f.fetch_source@,
                )
                &&& assoc_find(cos.bucket.fetch_headers@, "X-Upos-Auth"@) == Some(f.fetch_auth@)
                &&& assoc_find(cos.bucket.fetch_headers@, "Fetch-Header-Authorization"@) == Some(
                    f.fetch_header_auth@,
                )
            }),
    {
        if !success {
            self.phase = MergePhase::Failed;
            return Err(SessionError { body });
        }
        let fetch_source = match assoc_lookup(&cos.bucket.fetch_headers, "X-Upos-Fetch-Source") {
            Some(v) => String::from_str(v.as_str()),
            None => {
                proof {
                    assert(false);
                }
                String::new()
            },
        };
        let fetch_auth = match assoc_lookup(&cos.bucket.fetch_headers, "X-Upos-Auth") {
            Some(v) => String::from_str(v.as_str()),
            None => {
                proof {
                    assert(false);
                }
                String::new()
            },
        };
        let fetch_header_auth = match assoc_lookup(
            &cos.bucket.fetch_headers,
            "Fetch-Header-Authorization",
        ) {
            Some(v) => String::from_str(v.as_str()),
            None => {
                proof {
                    assert(false);
                }
                String::new()
            },
        };
        let mut url = String::from_str("https:");
        url.append(cos.bucket.fetch_url.as_str());
        self.phase = MergePhase::Fetching;
        Ok(FetchRequest { url, fetch_source, fetch_auth, fetch_header_auth })
    }

    /// Meaning of the fetch-trigger response: non-success is fatal and
    /// surfaces the body verbatim; success completes the session and yields
    /// the `Video` record, its filename the stem of the bucket's destination
    /// filename.
    pub fn on_fetch_response(&mut self, cos: &Cos, success: bool, body: String) -> (r: Result<
        Video,
        SessionError,
    >)
        requires
            old(self).phase is Fetching,
            spec_file_stem(cos.bucket.bili_filename@) is Some,
        ensures
            !success ==> final(self).phase is Failed && (r matches Err(e) && e.body == body),
            success ==> final(self).phase is Done && (r matches Ok(v) && {
                &&& v.title is None
                &&& Some(v.filename@) == spec_file_stem(cos.bucket.bili_filename@)
                &&& v.desc@ == Seq::<char>::empty()
            }),
    {
        if !success {
            self.phase = MergePhase::Failed;
            return Err(SessionError { body });
        }
        let filename = match file_stem(cos.bucket.bili_filename.as_str()) {
            Some(st) => st,
            None => {
                proof {
                    assert(false);
                }
                String::new()
            },
        };
        self.phase = MergePhase::Done;
        Ok(Video { title: None, filename, desc: String::new() })
    }
}

} // verus!
