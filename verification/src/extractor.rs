//! Site extraction and download dispatch: the ordered registry of site
//! capabilities, the descriptor a successful resolution produces, and the
//! container-specific download plan the dispatcher follows. Network calls
//! (resolution, the GET, the probe read, the decoders) are the caller's; this
//! module fixes which of them happen and in what order.

use vstd::prelude::*;
use vstd::string::StringExecFns;
use crate::strutil::contains_seq;
use crate::strutil::contains_sub;
use crate::strutil::replace_all;
use crate::strutil::spec_replace;

verus! {

/// A site this tool can capture from. Each capability answers whether it can
/// handle a page URL; resolving the URL into a [`Site`] is a network call and
/// stays with the caller.
#[derive(Clone, Copy, PartialEq, Eq, Structural, Debug)]
pub enum SiteCapability {
    BiliLive,
    HuyaLive,
    DouyuLive,
}

/// The host fragment whose presence in a URL marks it as one of this
/// capability's pages.
pub open spec fn spec_host_pattern(c: SiteCapability) -> Seq<char> {
    match c {
        SiteCapability::BiliLive => "live.bilibili.com"@,
        SiteCapability::HuyaLive => "huya.com"@,
        SiteCapability::DouyuLive => "douyu.com"@,
    }
}

/// `c` can handle `url`.
pub open spec fn spec_matches(c: SiteCapability, url: Seq<char>) -> bool {
    contains_seq(url, spec_host_pattern(c))
}

fn host_pattern(c: &SiteCapability) -> (r: &'static str)
    ensures
        r@ == spec_host_pattern(*c),
{
    match c {
        SiteCapability::BiliLive => "live.bilibili.com",
        SiteCapability::HuyaLive => "huya.com",
        SiteCapability::DouyuLive => "douyu.com",
    }
}

impl SiteCapability {
    /// Whether this capability can handle `url`.
    pub fn matches(&self, url: &str) -> (r: bool)
        ensures
            r == spec_matches(*self, url@),
    {
        contains_sub(url, host_pattern(self))
    }
}

/// The fixed, ordered registry: lookup scans it front to back, first match
/// wins.
pub open spec fn spec_registry() -> Seq<SiteCapability> {
    seq![
        SiteCapability::BiliLive,
        SiteCapability::HuyaLive,
        SiteCapability::DouyuLive,
    ]
}

/// The registry as a vector, in registration order.
pub fn extractors() -> (r: Vec<SiteCapability>)
    ensures
        r@ == spec_registry(),
{
    let mut v: Vec<SiteCapability> = Vec::new();
    v.push(SiteCapability::BiliLive);
    v.push(SiteCapability::HuyaLive);
    v.push(SiteCapability::DouyuLive);
    proof {
        assert(v@ =~= spec_registry());
    }
    v
}

/// First registered capability whose match predicate accepts `url`; `None`
/// when no capability recognizes it.
pub fn find_extractor(url: &str) -> (r: Option<SiteCapability>)
    ensures
        match r {
            Some(c) => exists|i: int|
                0 <= i < spec_registry().len() && spec_registry()[i] == c && spec_matches(
                    c,
                    url@,
                ) && forall|j: int| 0 <= j < i ==> !spec_matches(spec_registry()[j], url@),
            None => forall|i: int|
                0 <= i < spec_registry().len() ==> !spec_matches(spec_registry()[i], url@),
        },
{
    let regs = extractors();
    let mut i: usize = 0;
    while i < regs.len()
        invariant
            regs@ == spec_registry(),
            0 <= i <= regs@.len(),
            forall|j: int| 0 <= j < i ==> !spec_matches(spec_registry()[j], url@),
        decreases regs@.len() - i,
    {
        let c = regs[i];
        if c.matches(url) {
            return Some(c);
        }
        i += 1;
    }
    None
}

/// Container kind of a resolved media source: one continuous FLV connection,
/// or a segmented TS playlist.
#[derive(Clone, Copy, PartialEq, Eq, Structural, Debug)]
pub enum Extension {
    Flv,
    Ts,
}

/// Descriptor of a resolved media source. Produced by a successful
/// resolution, consumed once by the download dispatcher; the HTTP client it
/// travels with stays outside this crate.
pub struct Site {
    pub name: &'static str,
    pub title: String,
    pub direct_url: String,
    pub extension: Extension,
}

/// One step of a download, in the order the dispatcher performs them.
#[derive(Clone, Copy, PartialEq, Eq, Structural, Debug)]
pub enum DownloadAction {
    /// One retried GET to the direct media URL.
    Connect,
    /// Read exactly `len` bytes from the open connection as the container
    /// signature probe.
    ReadProbe { len: usize },
    /// Hand connection, sink and segmentation policy to the FLV decoder.
    DecodeFlv,
    /// Delegate URL, client, output name and segmentation policy to the
    /// segment fetcher.
    FetchHls,
}

/// Length in bytes of the container signature probe read before FLV decoding.
pub const PROBE_LEN: usize = 9;

/// The steps a download of a source with container kind `e` performs, in
/// order. Any step failing aborts the download; nothing is retried at this
/// layer.
pub open spec fn spec_download_plan(e: Extension) -> Seq<DownloadAction> {
    match e {
        Extension::Flv => seq![
            DownloadAction::Connect,
            DownloadAction::ReadProbe { len: PROBE_LEN },
            DownloadAction::DecodeFlv,
        ],
        Extension::Ts => seq![DownloadAction::FetchHls],
    }
}

impl Site {
    /// The dispatcher's plan for this descriptor, decided by its container
    /// kind alone.
    pub fn download_plan(&self) -> (r: Vec<DownloadAction>)
        ensures
            r@ == spec_download_plan(self.extension),
    {
        let mut v: Vec<DownloadAction> = Vec::new();
        match self.extension {
            Extension::Flv => {
                v.push(DownloadAction::Connect);
                v.push(DownloadAction::ReadProbe { len: PROBE_LEN });
                v.push(DownloadAction::DecodeFlv);
            },
            Extension::Ts => {
                v.push(DownloadAction::FetchHls);
            },
        }
        proof {
            assert(v@ =~= spec_download_plan(self.extension));
        }
        v
    }

    /// The output filename for this attempt: the sink's filename template
    /// with every `{title}` placeholder replaced by the resolved title.
    pub fn formatted_file_name(&self, fmt_file_name: &str) -> (r: String)
        ensures
            r@ == spec_replace(fmt_file_name@, "{title}"@, self.title@),
    {
        proof {
            reveal_strlit("{title}");
        }
        replace_all(fmt_file_name, "{title}", self.title.as_str())
    }

    /// The probe read succeeded: exactly the required signature length came
    /// back. A short read is a protocol error and aborts the download.
    pub fn probe_complete(&self, n_read: usize) -> (r: bool)
        ensures
            r == (n_read == PROBE_LEN),
    {
        n_read == PROBE_LEN
    }

    /// Rendering of the descriptor: name, title and direct URL, one per line.
    pub fn display_string(&self) -> (r: String)
        ensures
            r@ == "Name: "@ + self.name@ + "\nTitle: "@ + self.title@ + "\nDirect url: "@
                + self.direct_url@,
    {
        let mut r = String::from_str("Name: ");
        r.append(self.name);
        r.append("\nTitle: ");
        r.append(self.title.as_str());
        r.append("\nDirect url: ");
        r.append(self.direct_url.as_str());
        r
    }
}

/// How many probe reads a plan performs.
pub open spec fn count_probe_reads(s: Seq<DownloadAction>) -> int
    decreases s.len(),
{
    if s.len() == 0 {
        0
    } else {
        (if s[0] is ReadProbe {
            1int
        } else {
            0int
        }) + count_probe_reads(s.drop_first())
    }
}

/// Probe discipline of the dispatcher: a continuous-FLV download performs
/// exactly one probe read, of exactly [`PROBE_LEN`] bytes, after connecting
/// and before the decoder is invoked; a segmented-TS download performs none
/// and never invokes the FLV decoder.
pub proof fn lemma_probe_discipline(e: Extension)
    ensures
        count_probe_reads(spec_download_plan(e)) == if e is Flv {
            1int
        } else {
            0int
        },
        e is Flv ==> spec_download_plan(e) == seq![
            DownloadAction::Connect,
            DownloadAction::ReadProbe { len: PROBE_LEN },
            DownloadAction::DecodeFlv,
        ],
        e is Ts ==> forall|i: int|
            0 <= i < spec_download_plan(e).len() ==> !(spec_download_plan(e)[i] is ReadProbe)
                && !(spec_download_plan(e)[i] is DecodeFlv),
{
    reveal_with_fuel(count_probe_reads, 5);
    let p = spec_download_plan(e);
    match e {
        Extension::Flv => {
            assert(p.drop_first() =~= seq![
                DownloadAction::ReadProbe { len: PROBE_LEN },
                DownloadAction::DecodeFlv,
            ]);
            assert(p.drop_first().drop_first() =~= seq![DownloadAction::DecodeFlv]);
            assert(p.drop_first().drop_first().drop_first() =~= Seq::<DownloadAction>::empty());
        },
        Extension::Ts => {
            assert(p.drop_first() =~= Seq::<DownloadAction>::empty());
        },
    }
}

} // verus!
