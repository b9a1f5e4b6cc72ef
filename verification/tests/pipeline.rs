use biliup::cos::{chunk_outcome, chunks_num, parse_upload_id, Bucket, Cos, MergePhase, Protocol,
    UploadTracker};
use biliup::extractor::{find_extractor, DownloadAction, Extension, Site, SiteCapability,
    PROBE_LEN};
use biliup::default_limit;
use biliup::strutil;

fn make_bucket(bili_filename: &str, url: &str, fetch_url: &str) -> Bucket {
    Bucket {
        ok: 1,
        bili_filename: bili_filename.to_string(),
        biz_id: 42,
        fetch_headers: vec![
            ("X-Upos-Fetch-Source".to_string(), "src-value".to_string()),
            ("X-Upos-Auth".to_string(), "auth-value".to_string()),
            ("Fetch-Header-Authorization".to_string(), "hdr-value".to_string()),
        ],
        fetch_url: fetch_url.to_string(),
        fetch_urls: vec![fetch_url.to_string()],
        post_auth: "post-token".to_string(),
        put_auth: "put-token".to_string(),
        url: url.to_string(),
    }
}

fn make_cos(bili_filename: &str) -> Cos {
    let bucket = make_bucket(
        bili_filename,
        "https://bucket.cos.accelerate.myqcloud.com/path",
        "//upos.example/fetch",
    );
    Cos::form_post(bucket, "<UploadId>session-1</UploadId>").expect("session opens")
}

#[test]
fn chunks_num_is_ceiling() {
    assert_eq!(chunks_num(15_000_000), 2);
    assert_eq!(chunks_num(0), 0);
    assert_eq!(chunks_num(1), 1);
    assert_eq!(chunks_num(10_485_760), 1);
    assert_eq!(chunks_num(10_485_761), 2);
    assert_eq!(chunks_num(20_971_520), 2);
    assert_eq!(chunks_num(u64::MAX), u64::MAX / 10_485_760 + 1);
}

#[test]
fn default_limit_is_three() {
    assert_eq!(default_limit(), 3);
}

#[test]
fn config_records_hold_their_values() {
    let config = biliup::Config {
        user: Some(biliup::User {
            account: biliup::Account {
                username: "name".to_string(),
                password: "pw".to_string(),
            },
        }),
        line: None,
        limit: default_limit(),
        streamers: vec!["https://live.bilibili.com/1".to_string()],
    };
    let user = config.user.expect("user is set");
    assert_eq!(user.account.username, "name");
    assert_eq!(config.limit, 3);
    assert_eq!(config.streamers.len(), 1);
    assert!(matches!(biliup::Uploader::Cos, biliup::Uploader::Cos));
}

#[test]
fn find_extractor_first_match_wins() {
    assert_eq!(
        find_extractor("https://live.bilibili.com/123"),
        Some(SiteCapability::BiliLive)
    );
    assert_eq!(
        find_extractor("https://www.huya.com/room"),
        Some(SiteCapability::HuyaLive)
    );
    assert_eq!(
        find_extractor("https://www.douyu.com/9999"),
        Some(SiteCapability::DouyuLive)
    );
    // A URL that several capabilities accept goes to the first registered one.
    assert_eq!(
        find_extractor("https://live.bilibili.com/?ref=huya.com&also=douyu.com"),
        Some(SiteCapability::BiliLive)
    );
}

#[test]
fn find_extractor_unrecognized_is_none() {
    assert_eq!(find_extractor("https://example.com/watch?v=1"), None);
    assert_eq!(find_extractor(""), None);
}

#[test]
fn download_plan_flv_probes_once_before_decode() {
    let site = Site {
        name: "bilibili",
        title: "t".to_string(),
        direct_url: "https://cdn.example/stream.flv".to_string(),
        extension: Extension::Flv,
    };
    let plan = site.download_plan();
    assert_eq!(
        plan,
        vec![
            DownloadAction::Connect,
            DownloadAction::ReadProbe { len: PROBE_LEN },
            DownloadAction::DecodeFlv,
        ]
    );
    assert_eq!(PROBE_LEN, 9);
    assert!(site.probe_complete(9));
    assert!(!site.probe_complete(8));
    assert!(!site.probe_complete(0));
}

#[test]
fn download_plan_ts_never_probes() {
    let site = Site {
        name: "huya",
        title: "t".to_string(),
        direct_url: "https://cdn.example/stream.m3u8".to_string(),
        extension: Extension::Ts,
    };
    let plan = site.download_plan();
    assert_eq!(plan, vec![DownloadAction::FetchHls]);
}

#[test]
fn site_title_substitution_and_display() {
    let site = Site {
        name: "bilibili",
        title: "morning show".to_string(),
        direct_url: "https://cdn.example/s.flv".to_string(),
        extension: Extension::Flv,
    };
    assert_eq!(
        site.formatted_file_name("{title}-%Y%m%d"),
        "morning show-%Y%m%d"
    );
    assert_eq!(site.formatted_file_name("plain"), "plain");
    assert_eq!(
        site.display_string(),
        "Name: bilibili\nTitle: morning show\nDirect url: https://cdn.example/s.flv"
    );
}

#[test]
fn parse_upload_id_extracts_bracketed_marker() {
    let ok = parse_upload_id("<x><UploadId>abc123</UploadId></x>");
    assert_eq!(ok.expect("id parses"), "abc123");

    let err = parse_upload_id("<x>no marker here</x>").expect_err("marker absent");
    assert_eq!(err.body, "<x>no marker here</x>");

    let inverted = parse_upload_id("</UploadId>oops<UploadId>").expect_err("markers inverted");
    assert_eq!(inverted.body, "</UploadId>oops<UploadId>");
}

#[test]
fn form_post_binds_bucket_and_session() {
    let cos = make_cos("path/video.mp4");
    assert_eq!(cos.upload_id, "session-1");
    assert_eq!(cos.bucket.bili_filename, "path/video.mp4");

    let bucket = make_bucket("f.mp4", "https://u", "//f");
    let err = Cos::form_post(bucket, "denied").expect_err("no session id");
    assert_eq!(err.body, "denied");
}

#[test]
fn init_url_and_query_string() {
    let bucket = make_bucket("f.mp4", "https://u.example/b", "//f");
    assert_eq!(Cos::init_url(&bucket), "https://u.example/b?uploads&output=json");

    let params = Protocol { upload_id: "session-1".to_string(), part_number: 7 };
    assert_eq!(params.query_string(), "uploadId=session-1&partNumber=7");
}

#[test]
fn upload_url_internal_endpoint_switch() {
    let cos = make_cos("path/video.mp4");
    assert_eq!(
        cos.upload_url(true),
        "https://bucket.cos-internal.ap-shanghai.myqcloud.com/path"
    );
    assert_eq!(
        cos.upload_url(false),
        "https://bucket.cos.accelerate.myqcloud.com/path"
    );
}

#[test]
fn chunk_outcome_numbers_parts_from_one() {
    let ok = chunk_outcome(0, true, Some("etag-a".to_string()), "body".to_string());
    assert_eq!(ok.expect("tag present"), (1, "etag-a".to_string()));
}

#[test]
fn chunk_outcome_missing_tag_is_fatal_and_names_part() {
    let err = chunk_outcome(2, true, None, "server said no".to_string()).expect_err("tag missing");
    assert_eq!(err.part, 3);
    assert_eq!(err.body, "server said no");
    assert_eq!(err.message(), "upload chunk 3 error: server said no");
}

#[test]
fn chunk_outcome_non_success_status_is_fatal_even_with_tag() {
    let err = chunk_outcome(0, false, Some("etag-a".to_string()), "status 500".to_string())
        .expect_err("non-success status");
    assert_eq!(err.part, 1);
    assert_eq!(err.body, "status 500");
    assert_eq!(err.message(), "upload chunk 1 error: status 500");
}

#[test]
fn tracker_dispatches_bounded_and_in_order() {
    let mut t = UploadTracker::new(3, 2);
    assert_eq!(t.try_dispatch(), Some(1));
    assert_eq!(t.try_dispatch(), Some(2));
    // The concurrency bound holds.
    assert_eq!(t.try_dispatch(), None);
    t.on_chunk_success(1, "a".to_string());
    assert_eq!(t.try_dispatch(), Some(3));
    assert_eq!(t.try_dispatch(), None);
    t.on_chunk_success(3, "c".to_string());
    t.on_chunk_success(2, "b".to_string());
    assert!(t.is_complete());
    assert_eq!(
        t.parts,
        vec![
            (1, "a".to_string()),
            (3, "c".to_string()),
            (2, "b".to_string()),
        ]
    );
}

#[test]
fn tracker_never_dispatches_after_failure() {
    let mut t = UploadTracker::new(10, 2);
    assert_eq!(t.try_dispatch(), Some(1));
    assert_eq!(t.try_dispatch(), Some(2));
    t.on_chunk_failure();
    assert_eq!(t.try_dispatch(), None);
    t.on_chunk_success(2, "b".to_string());
    assert_eq!(t.try_dispatch(), None);
    assert!(!t.is_complete());
}

#[test]
fn merge_manifest_is_input_order_independent() {
    let cos = make_cos("path/video.mp4");
    let mut unordered = vec![(2, "B".to_string()), (1, "A".to_string())];
    let mut ordered = vec![(1, "A".to_string()), (2, "B".to_string())];
    let (_, req_a) = cos.merge_files(&mut unordered);
    let (_, req_b) = cos.merge_files(&mut ordered);
    assert_eq!(req_a.body, req_b.body);
    assert_eq!(unordered, ordered);

    let expected = "\n    <CompleteMultipartUpload>\n    \
        \n    <Part>\n        <PartNumber>1</PartNumber>\n        <ETag>A</ETag>\n    </Part>\n    \
        \n    <Part>\n        <PartNumber>2</PartNumber>\n        <ETag>B</ETag>\n    </Part>\n    \
        \n    </CompleteMultipartUpload>\n    ";
    assert_eq!(req_a.body, expected);

    let one = req_a.body.find("<PartNumber>1</PartNumber>").expect("part one listed");
    let two = req_a.body.find("<PartNumber>2</PartNumber>").expect("part two listed");
    assert!(one < two);

    assert_eq!(req_a.url, "https://bucket.cos.accelerate.myqcloud.com/path");
    assert_eq!(req_a.upload_id, "session-1");
    assert_eq!(req_a.auth, "post-token");
}

#[test]
fn merge_manifest_sorts_any_permutation() {
    let cos = make_cos("path/video.mp4");
    let mut shuffled = vec![
        (3, "C".to_string()),
        (1, "A".to_string()),
        (2, "B".to_string()),
    ];
    let mut sorted = vec![
        (1, "A".to_string()),
        (2, "B".to_string()),
        (3, "C".to_string()),
    ];
    let (_, req_a) = cos.merge_files(&mut shuffled);
    let (_, req_b) = cos.merge_files(&mut sorted);
    assert_eq!(req_a.body, req_b.body);
    assert_eq!(shuffled, sorted);
}

#[test]
fn merge_commit_failure_never_fetches() {
    let cos = make_cos("path/video.mp4");
    let mut parts = vec![(1, "A".to_string())];
    let (mut flow, _req) = cos.merge_files(&mut parts);
    let err = flow
        .on_commit_response(&cos, false, "quota exceeded".to_string())
        .expect_err("commit failed");
    assert_eq!(err.body, "quota exceeded");
    assert_eq!(flow.phase, MergePhase::Failed);
}

#[test]
fn merge_end_to_end_yields_video_stem() {
    let cos = make_cos("path/video.mp4");
    let mut parts = vec![(2, "B".to_string()), (1, "A".to_string())];
    let (mut flow, _req) = cos.merge_files(&mut parts);

    let fetch = flow
        .on_commit_response(&cos, true, String::new())
        .expect("commit succeeded");
    assert_eq!(flow.phase, MergePhase::Fetching);
    assert_eq!(fetch.url, "https://upos.example/fetch");
    assert_eq!(fetch.fetch_source, "src-value");
    assert_eq!(fetch.fetch_auth, "auth-value");
    assert_eq!(fetch.fetch_header_auth, "hdr-value");

    let video = flow
        .on_fetch_response(&cos, true, String::new())
        .expect("fetch succeeded");
    assert_eq!(flow.phase, MergePhase::Done);
    assert_eq!(video.filename, "video");
    assert_eq!(video.title, None);
    assert_eq!(video.desc, "");
}

#[test]
fn merge_fetch_failure_surfaces_body() {
    let cos = make_cos("path/video.mp4");
    let mut parts = vec![(1, "A".to_string())];
    let (mut flow, _req) = cos.merge_files(&mut parts);
    flow.on_commit_response(&cos, true, String::new()).expect("commit succeeded");
    let err = flow
        .on_fetch_response(&cos, false, "fetch denied".to_string())
        .expect_err("fetch failed");
    assert_eq!(err.body, "fetch denied");
    assert_eq!(flow.phase, MergePhase::Failed);
}

#[test]
fn file_stem_strips_directory_and_extension() {
    assert_eq!(strutil::file_stem("path/video.mp4"), Some("video".to_string()));
    assert_eq!(strutil::file_stem("video.mp4"), Some("video".to_string()));
    assert_eq!(strutil::file_stem("a/b/c.d.e"), Some("c.d".to_string()));
    assert_eq!(strutil::file_stem(".mp4"), Some(".mp4".to_string()));
    assert_eq!(strutil::file_stem("noext"), Some("noext".to_string()));
    assert_eq!(strutil::file_stem("dir/"), None);
    assert_eq!(strutil::file_stem(""), None);
}

#[test]
fn string_search_and_replace() {
    assert_eq!(strutil::find_first("abcabc", "bc"), Some(1));
    assert_eq!(strutil::find_last("abcabc", "bc"), Some(4));
    assert_eq!(strutil::find_first("abc", "zz"), None);
    assert!(strutil::contains_sub("hay needle stack", "needle"));
    assert!(!strutil::contains_sub("haystack", "needle"));
    assert_eq!(strutil::replace_all("xx-xx-xx", "xx", "y"), "y-y-y");
    assert_eq!(strutil::replace_all("aaa", "aa", "b"), "ba");
    assert_eq!(strutil::u64_to_dec(0), "0");
    assert_eq!(strutil::u64_to_dec(10485760), "10485760");
    assert_eq!(strutil::u64_to_dec(u64::MAX), "18446744073709551615");
}

#[test]
fn assoc_lookup_takes_first_binding() {
    let m = vec![
        ("k".to_string(), "first".to_string()),
        ("k".to_string(), "second".to_string()),
        ("other".to_string(), "x".to_string()),
    ];
    assert_eq!(strutil::assoc_lookup(&m, "k"), Some(&"first".to_string()));
    assert_eq!(strutil::assoc_lookup(&m, "other"), Some(&"x".to_string()));
    assert_eq!(strutil::assoc_lookup(&m, "missing"), None);
}
