//! Reconciliation engine that keeps a Mastodon timeline and a Twitter
//! timeline mirrored: it canonicalizes platform-native status text, decides
//! which posts already exist on the other side, and plans the posts that are
//! still missing, replies threaded under their parents and oldest first.

pub mod attachments;
pub mod cache;
pub mod canonical;
pub mod compare;
pub mod model;
pub mod plan;
pub mod shorten;
pub mod sync;
pub mod thread_replies;
pub mod text;
pub mod textops;

use vstd::prelude::*;

verus! {

/// Command line options the driver hands to a run.
pub struct Args {
    /// Path of the configuration file.
    pub config: String,
    /// When set, nothing is posted and the cache is left untouched.
    pub dry_run: bool,
    /// When set, all existing posts are marked as synchronized.
    pub skip_existing_posts: bool,
}

} // verus!

