//! Capture-and-publish pipeline for livestream recording: resolves a live page
//! URL to a concrete media source, plans the container-specific download, and
//! republishes recorded media through a chunked, resumable multipart upload.
//!
//! The network itself (HTTP requests, async streams, file handles) lives with
//! the caller; this crate holds the decisions and computations of the pipeline
//! — chunk arithmetic, session-id parsing, completion-manifest building, the
//! extractor registry, and the download and finalization state machines — each
//! with a proved contract.

use vstd::prelude::*;

pub mod cos;
pub mod extractor;
pub mod strutil;

verus! {

/// Storage backends a recording can be republished to.
pub enum Uploader {
    Upos,
    Kodo,
    Bos,
    Gcs,
    Cos,
}

/// Credentials of the account that owns the published videos.
pub struct Account {
    pub username: String,
    pub password: String,
}

/// A configured user: exactly one account.
pub struct User {
    pub account: Account,
}

/// Runtime configuration. Loading it from disk is the caller's concern; the
/// crate only fixes the shape and the default concurrency limit.
pub struct Config {
    pub user: Option<User>,
    pub line: Option<String>,
    pub limit: usize,
    pub streamers: Vec<String>,
}

/// Default bound on concurrent chunk uploads, used when the configuration
/// does not name one.
pub fn default_limit() -> (r: usize)
    ensures
        r == 3,
{
    3
}

/// Terminal artifact of a successful finalization, handed to the caller for
/// downstream publishing.
#[derive(Debug)]
pub struct Video {
    pub title: Option<String>,
    pub filename: String,
    pub desc: String,
}

} // verus!

