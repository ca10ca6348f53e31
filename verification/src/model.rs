//! In-memory models of the two platforms' statuses, holding exactly the
//! fields the reconciliation engine reads. The driver converts the API
//! crates' values into these before a run.

use vstd::prelude::*;

verus! {

/// The author of a tweet, as far as the engine needs it.
#[derive(Clone, Debug)]
pub struct TweetUser {
    pub id: u64,
    pub screen_name: String,
}

/// A shortened link in a tweet together with its expanded target.
#[derive(Clone, Debug)]
pub struct UrlEntity {
    pub url: String,
    pub expanded_url: Option<String>,
}

/// One rendition of an attached video.
#[derive(Clone, Debug)]
pub struct VideoVariant {
    pub bitrate: Option<u64>,
    pub url: String,
}

/// One attachment of a tweet; `video_info` is present exactly for videos.
#[derive(Clone, Debug)]
pub struct MediaEntity {
    pub url: String,
    pub media_url_https: String,
    pub ext_alt_text: Option<String>,
    pub video_info: Option<Vec<VideoVariant>>,
}

/// A post on the microblogging platform, newest-first in its timeline.
#[derive(Debug)]
pub struct Tweet {
    pub id: u64,
    pub text: String,
    pub user: Option<TweetUser>,
    pub in_reply_to_user_id: Option<u64>,
    pub in_reply_to_status_id: Option<u64>,
    pub retweeted: Option<bool>,
    pub retweeted_status: Option<Box<Tweet>>,
    pub quoted_status: Option<Box<Tweet>>,
    pub urls: Vec<UrlEntity>,
    pub media: Option<Vec<MediaEntity>>,
}

/// The author of a status on the federated platform.
#[derive(Clone, Debug)]
pub struct StatusAccount {
    pub acct: String,
}

/// One attachment of a status.
#[derive(Clone, Debug)]
pub struct StatusAttachment {
    pub url: String,
    pub description: Option<String>,
}

/// A post on the federated platform, newest-first in its timeline.
#[derive(Debug)]
pub struct Status {
    pub id: u64,
    pub content: String,
    pub url: Option<String>,
    pub in_reply_to_id: Option<String>,
    pub account: StatusAccount,
    pub reblog: Option<Box<Status>>,
    pub media_attachments: Vec<StatusAttachment>,
}

/// Structural size of a tweet's reshare/quote nesting; canonicalization
/// recurses along it.
pub open spec fn tweet_size(t: Tweet) -> nat
    decreases t,
{
    1 + opt_tweet_size(t.retweeted_status) + opt_tweet_size(t.quoted_status)
}

pub open spec fn opt_tweet_size(o: Option<Box<Tweet>>) -> nat
    decreases o,
{
    match o {
        Option::None => 0,
        Option::Some(b) => tweet_size(*b),
    }
}

/// A tweet the engine can canonicalize without missing data: a reply knows
/// its parent and author, and every reshared or quoted status carries its
/// author.
pub open spec fn tweet_wf(t: Tweet) -> bool
    decreases t,
{
    &&& (t.in_reply_to_user_id.is_some() ==> t.user.is_some() && t.in_reply_to_status_id.is_some())
    &&& opt_tweet_wf(t.retweeted_status)
    &&& opt_tweet_wf(t.quoted_status)
}

pub open spec fn opt_tweet_wf(o: Option<Box<Tweet>>) -> bool
    decreases o,
{
    match o {
        Option::None => true,
        Option::Some(b) => b.user.is_some() && tweet_wf(*b),
    }
}

pub open spec fn tweets_wf(ts: Seq<Tweet>) -> bool {
    forall|i: int| 0 <= i < ts.len() ==> tweet_wf(#[trigger] ts[i])
}

} // verus!
