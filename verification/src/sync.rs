//! The diff planner: walks both newest-first timelines, finds the
//! synchronization boundary, and produces the ordered plan of posts that must
//! be created on the opposite platform, oldest first.

use vstd::prelude::*;

use crate::attachments::{
    toot_attachments_spec, toot_get_attachments, tweet_attachments_spec, tweet_get_attachments,
};
use crate::canonical::{mastodon_toot_get_text, toot_text_spec, tweet_text_spec,
    tweet_unshorten_decode};
use crate::compare::{statuses_equal, toot_and_tweet_are_equal, toot_link_of};
use crate::model::{tweets_wf, tweet_wf, Status, Tweet};
use crate::plan::{lemma_views_of, plan_items_view, NewStatus, PlanItemV, StatusUpdates};
use crate::shorten::{tweet_shorten, tweet_shorten_spec};
use crate::text::{contains_chars, contains_spec};
use crate::textops::str_chars;
use crate::thread_replies::{
    determine_thread_replies, insert_all_spec, is_self_reply, replies_scan, ReplyV,
};

pub use crate::plan::{NewMedia, SyncOptions};

verus! {

broadcast use vstd::std_specs::vec::group_vec_axioms, vstd::seq::group_seq_axioms;

/// A tweet the planner's main scan passes over: replies are the thread
/// walker's business, and retweets only count when retweets are synced.
pub open spec fn tweet_skipped(t: Tweet, opts: SyncOptions) -> bool {
    t.in_reply_to_user_id.is_some() || (t.retweeted == Option::Some(true) && !opts.sync_retweets)
}

/// Whether some toot equals the tweet.
pub open spec fn exists_equal_toot(toots: Seq<Status>, t: Tweet) -> bool {
    exists|j: int| 0 <= j < toots.len() && statuses_equal(#[trigger] toots[j], t)
}

/// Whether some tweet equals the toot.
pub open spec fn exists_equal_tweet(tweets: Seq<Tweet>, s: Status) -> bool {
    exists|j: int| 0 <= j < tweets.len() && statuses_equal(s, #[trigger] tweets[j])
}

/// Whether a configured hashtag filter rejects the tweet's canonical text.
pub open spec fn tweet_hashtag_missing(t: Tweet, opts: SyncOptions) -> bool {
    match opts.sync_hashtag_twitter {
        Option::Some(tag) => tag@.len() > 0 && !contains_spec(tweet_text_spec(t, true), tag@),
        Option::None => false,
    }
}

/// The plan node that mirrors a tweet on the federated platform.
pub open spec fn tweet_plan_item(t: Tweet) -> PlanItemV {
    PlanItemV {
        text: tweet_text_spec(t, true),
        attachments: tweet_attachments_spec(t),
        replies: Seq::empty(),
        in_reply_to_id: Option::None,
        original_id: t.id,
    }
}

/// The new toots the scan plans from position `i` on: skipped tweets
/// contribute nothing, and the scan stops entirely at the first tweet that
/// already has an equal toot — everything at or older than that point is
/// already synced, because timelines are append-only.
pub open spec fn planned_toots(
    tweets: Seq<Tweet>,
    toots: Seq<Status>,
    opts: SyncOptions,
    i: int,
) -> Seq<PlanItemV>
    decreases tweets.len() - i,
{
    if i < 0 || i >= tweets.len() {
        Seq::empty()
    } else {
        let t = tweets[i];
        if tweet_skipped(t, opts) {
            planned_toots(tweets, toots, opts, i + 1)
        } else if exists_equal_toot(toots, t) {
            Seq::empty()
        } else if tweet_hashtag_missing(t, opts) {
            planned_toots(tweets, toots, opts, i + 1)
        } else {
            seq![tweet_plan_item(t)] + planned_toots(tweets, toots, opts, i + 1)
        }
    }
}

/// A toot the planner's main scan passes over: replies are the thread
/// walker's business, and boosts only count when boosts are synced.
pub open spec fn toot_skipped(s: Status, opts: SyncOptions) -> bool {
    s.in_reply_to_id.is_some() || (s.reblog.is_some() && !opts.sync_reblogs)
}

/// The text a toot would be posted with on the microblogging platform:
/// canonical, then fitted to that platform's budget against the original
/// post's address.
pub open spec fn toot_post_text(s: Status) -> Seq<char> {
    tweet_shorten_spec(toot_text_spec(s), toot_link_of(s))
}

/// A direct toot to another account, which never leaves its platform.
pub open spec fn toot_direct(s: Status) -> bool {
    toot_post_text(s).len() > 0 && toot_post_text(s)[0] == '@'
}

/// Whether a configured hashtag filter rejects the toot's canonical text.
pub open spec fn toot_hashtag_missing(s: Status, opts: SyncOptions) -> bool {
    match opts.sync_hashtag_mastodon {
        Option::Some(tag) => tag@.len() > 0 && !contains_spec(toot_text_spec(s), tag@),
        Option::None => false,
    }
}

/// The plan node that mirrors a toot on the microblogging platform.
pub open spec fn toot_plan_item(s: Status) -> PlanItemV {
    PlanItemV {
        text: toot_post_text(s),
        attachments: toot_attachments_spec(s),
        replies: Seq::empty(),
        in_reply_to_id: Option::None,
        original_id: s.id,
    }
}

/// The new tweets the scan plans from position `i` on, with the same
/// stop-at-the-boundary rule as the other direction.
pub open spec fn planned_tweets(
    toots: Seq<Status>,
    tweets: Seq<Tweet>,
    opts: SyncOptions,
    i: int,
) -> Seq<PlanItemV>
    decreases toots.len() - i,
{
    if i < 0 || i >= toots.len() {
        Seq::empty()
    } else {
        let s = toots[i];
        if toot_skipped(s, opts) {
            planned_tweets(toots, tweets, opts, i + 1)
        } else if toot_direct(s) {
            planned_tweets(toots, tweets, opts, i + 1)
        } else if exists_equal_tweet(tweets, s) {
            Seq::empty()
        } else if toot_hashtag_missing(s, opts) {
            planned_tweets(toots, tweets, opts, i + 1)
        } else {
            seq![toot_plan_item(s)] + planned_tweets(toots, tweets, opts, i + 1)
        }
    }
}

/// The whole plan for the federated side: the main scan's nodes with the
/// thread replies grafted on, oldest first.
pub open spec fn final_toots_plan(
    tweets: Seq<Tweet>,
    toots: Seq<Status>,
    opts: SyncOptions,
) -> Seq<PlanItemV> {
    insert_all_spec(
        planned_toots(tweets, toots, opts, 0),
        replies_scan(tweets, toots, opts, 0).reverse(),
        tweets,
        toots,
    ).reverse()
}

/// The whole plan for the microblogging side, oldest first.
pub open spec fn final_tweets_plan(
    toots: Seq<Status>,
    tweets: Seq<Tweet>,
    opts: SyncOptions,
) -> Seq<PlanItemV> {
    planned_tweets(toots, tweets, opts, 0).reverse()
}

/// Whether some toot equals the tweet.
pub fn any_equal_toot(toots: &Vec<Status>, tweet: &Tweet) -> (r: bool)
    requires
        tweet_wf(*tweet),
    ensures
        r == exists_equal_toot(toots@, *tweet),
{
    let n: usize = toots.len();
    let mut j: usize = 0;
    while j < n
        invariant
            j <= n,
            n == toots@.len(),
            tweet_wf(*tweet),
            forall|k: int| 0 <= k < j ==> !statuses_equal(#[trigger] toots@[k], *tweet),
        decreases n - j,
    {
        if toot_and_tweet_are_equal(&toots[j], tweet) {
            return true;
        }
        j += 1;
    }
    false
}

/// Whether some tweet equals the toot.
pub fn any_equal_tweet(tweets: &Vec<Tweet>, toot: &Status) -> (r: bool)
    requires
        tweets_wf(tweets@),
    ensures
        r == exists_equal_tweet(tweets@, *toot),
{
    let n: usize = tweets.len();
    let mut j: usize = 0;
    while j < n
        invariant
            j <= n,
            n == tweets@.len(),
            tweets_wf(tweets@),
            forall|k: int| 0 <= k < j ==> !statuses_equal(*toot, #[trigger] tweets@[k]),
        decreases n - j,
    {
        proof {
            assert(tweet_wf(tweets@[j as int]));
        }
        if toot_and_tweet_are_equal(toot, &tweets[j]) {
            return true;
        }
        j += 1;
    }
    false
}

/// Walks both newest-first timelines and produces the posts missing on each
/// opposite platform: the boundary scans' nodes, thread replies grafted on,
/// and the whole plan reversed so that the oldest pending post is first.
pub fn determine_posts(
    mastodon_statuses: &Vec<Status>,
    twitter_statuses: &Vec<Tweet>,
    options: &SyncOptions,
) -> (r: StatusUpdates)
    requires
        tweets_wf(twitter_statuses@),
    ensures
        plan_items_view(r.toots@) == final_toots_plan(
            twitter_statuses@,
            mastodon_statuses@,
            *options,
        ),
        plan_items_view(r.tweets@) == final_tweets_plan(
            mastodon_statuses@,
            twitter_statuses@,
            *options,
        ),
{
    let mut updates = StatusUpdates { tweets: Vec::new(), toots: Vec::new() };
    proof {
        assert(plan_items_view(updates.toots@) =~= Seq::<PlanItemV>::empty());
        assert(plan_items_view(updates.tweets@) =~= Seq::<PlanItemV>::empty());
        assert(Seq::<PlanItemV>::empty() + planned_toots(
            twitter_statuses@,
            mastodon_statuses@,
            *options,
            0,
        ) =~= planned_toots(twitter_statuses@, mastodon_statuses@, *options, 0));
    }

    let n: usize = twitter_statuses.len();
    let mut i: usize = 0;
    let mut stopped = false;
    while i < n && !stopped
        invariant
            i <= n,
            n == twitter_statuses@.len(),
            tweets_wf(twitter_statuses@),
            updates.tweets@.len() == 0,
            planned_toots(twitter_statuses@, mastodon_statuses@, *options, 0) == if stopped {
                plan_items_view(updates.toots@)
            } else {
                plan_items_view(updates.toots@) + planned_toots(
                    twitter_statuses@,
                    mastodon_statuses@,
                    *options,
                    i as int,
                )
            },
        decreases n - i, (if stopped { 0int } else { 1int }),
    {
        let tweet = &twitter_statuses[i];
        proof {
            assert(tweet_wf(twitter_statuses@[i as int]));
        }
        let mut skip = false;
        if tweet.in_reply_to_user_id.is_some() {
            skip = true;
        } else {
            match &tweet.retweeted {
                Option::Some(flag) => {
                    if *flag && !options.sync_retweets {
                        skip = true;
                    }
                },
                Option::None => {},
            }
        }
        if skip {
            i += 1;
        } else if any_equal_toot(mastodon_statuses, tweet) {
            stopped = true;
        } else {
            let decoded_tweet = tweet_unshorten_decode(tweet);
            let mut filtered = false;
            match &options.sync_hashtag_twitter {
                Option::Some(tag) => {
                    let tag_chars = str_chars(tag.as_str());
                    if tag_chars.len() > 0 {
                        let text_chars = str_chars(decoded_tweet.as_str());
                        if !contains_chars(&text_chars, &tag_chars) {
                            filtered = true;
                        }
                    }
                },
                Option::None => {},
            }
            if !filtered {
                let node = NewStatus {
                    text: decoded_tweet,
                    attachments: tweet_get_attachments(tweet),
                    replies: Vec::new(),
                    in_reply_to_id: Option::None,
                    original_id: tweet.id,
                };
                proof {
                    assert(plan_items_view(node.replies@) =~= Seq::<PlanItemV>::empty());
                    assert(node@ == tweet_plan_item(twitter_statuses@[i as int]));
                }
                let ghost toots_prev = updates.toots@;
                updates.toots.push(node);
                proof {
                    crate::plan::lemma_views_push(toots_prev, node);
                    assert(plan_items_view(updates.toots@) == plan_items_view(toots_prev).push(
                        tweet_plan_item(twitter_statuses@[i as int]),
                    ));
                    assert(plan_items_view(toots_prev).push(
                        tweet_plan_item(twitter_statuses@[i as int]),
                    ) + planned_toots(twitter_statuses@, mastodon_statuses@, *options, i + 1)
                        =~= plan_items_view(toots_prev) + (seq![
                        tweet_plan_item(twitter_statuses@[i as int]),
                    ] + planned_toots(twitter_statuses@, mastodon_statuses@, *options, i + 1)));
                }
            }
            i += 1;
        }
    }
    proof {
        if !stopped {
            assert(planned_toots(twitter_statuses@, mastodon_statuses@, *options, n as int)
                =~= Seq::<PlanItemV>::empty());
            assert(plan_items_view(updates.toots@) + Seq::<PlanItemV>::empty() =~= plan_items_view(
                updates.toots@,
            ));
        }
    }

    proof {
        assert(Seq::<PlanItemV>::empty() + planned_tweets(
            mastodon_statuses@,
            twitter_statuses@,
            *options,
            0,
        ) =~= planned_tweets(mastodon_statuses@, twitter_statuses@, *options, 0));
    }
    let m: usize = mastodon_statuses.len();
    let mut k: usize = 0;
    let mut stopped_toots = false;
    while k < m && !stopped_toots
        invariant
            k <= m,
            m == mastodon_statuses@.len(),
            tweets_wf(twitter_statuses@),
            plan_items_view(updates.toots@) == planned_toots(
                twitter_statuses@,
                mastodon_statuses@,
                *options,
                0,
            ),
            planned_tweets(mastodon_statuses@, twitter_statuses@, *options, 0)
                == if stopped_toots {
                plan_items_view(updates.tweets@)
            } else {
                plan_items_view(updates.tweets@) + planned_tweets(
                    mastodon_statuses@,
                    twitter_statuses@,
                    *options,
                    k as int,
                )
            },
        decreases m - k, (if stopped_toots { 0int } else { 1int }),
    {
        let toot = &mastodon_statuses[k];
        let mut skip = false;
        if toot.in_reply_to_id.is_some() {
            skip = true;
        } else if toot.reblog.is_some() && !options.sync_reblogs {
            skip = true;
        }
        if skip {
            k += 1;
        } else {
            let fulltext = mastodon_toot_get_text(toot);
            let link: &Option<String> = match &toot.reblog {
                Option::None => &toot.url,
                Option::Some(rb) => &rb.url,
            };
            proof {
                assert(crate::shorten::opt_str_view(*link) == toot_link_of(
                    mastodon_statuses@[k as int],
                ));
            }
            let post = tweet_shorten(fulltext.as_str(), link);
            let post_chars = str_chars(post.as_str());
            let direct = post_chars.len() > 0 && post_chars[0] == '@';
            if direct {
                k += 1;
            } else if any_equal_tweet(twitter_statuses, toot) {
                stopped_toots = true;
            } else {
                let mut filtered = false;
                match &options.sync_hashtag_mastodon {
                    Option::Some(tag) => {
                        let tag_chars = str_chars(tag.as_str());
                        if tag_chars.len() > 0 {
                            let text_chars = str_chars(fulltext.as_str());
                            if !contains_chars(&text_chars, &tag_chars) {
                                filtered = true;
                            }
                        }
                    },
                    Option::None => {},
                }
                if !filtered {
                    let node = NewStatus {
                        text: post,
                        attachments: toot_get_attachments(toot),
                        replies: Vec::new(),
                        in_reply_to_id: Option::None,
                        original_id: toot.id,
                    };
                    proof {
                        assert(plan_items_view(node.replies@) =~= Seq::<PlanItemV>::empty());
                        assert(node@ == toot_plan_item(mastodon_statuses@[k as int]));
                    }
                    let ghost tweets_prev = updates.tweets@;
                    updates.tweets.push(node);
                    proof {
                        crate::plan::lemma_views_push(tweets_prev, node);
                        assert(plan_items_view(updates.tweets@) == plan_items_view(
                            tweets_prev,
                        ).push(toot_plan_item(mastodon_statuses@[k as int])));
                        assert(plan_items_view(tweets_prev).push(
                            toot_plan_item(mastodon_statuses@[k as int]),
                        ) + planned_tweets(mastodon_statuses@, twitter_statuses@, *options, k + 1)
                            =~= plan_items_view(tweets_prev) + (seq![
                            toot_plan_item(mastodon_statuses@[k as int]),
                        ] + planned_tweets(mastodon_statuses@, twitter_statuses@, *options, k + 1)));
                    }
                }
                k += 1;
            }
        }
    }
    proof {
        if !stopped_toots {
            assert(planned_tweets(mastodon_statuses@, twitter_statuses@, *options, m as int)
                =~= Seq::<PlanItemV>::empty());
            assert(plan_items_view(updates.tweets@) + Seq::<PlanItemV>::empty()
                =~= plan_items_view(updates.tweets@));
        }
    }

    determine_thread_replies(mastodon_statuses, twitter_statuses, options, &mut updates);

    // Older posts should come first, so a reply is never planned ahead of
    // the post it answers.
    let ghost toots_pre = updates.toots@;
    let ghost tweets_pre = updates.tweets@;
    updates.reverse_order();
    proof {
        lemma_plan_views_reverse(toots_pre);
        lemma_plan_views_reverse(tweets_pre);
    }
    updates
}

/// Reversing the plan reverses whole nodes only: every node keeps its own
/// nested replies, so reversing the overall order never puts a child ahead
/// of the parent it hangs under.
pub proof fn lemma_plan_views_reverse(s: Seq<NewStatus>)
    ensures
        plan_items_view(s.reverse()) =~= plan_items_view(s).reverse(),
{
    lemma_views_of(s);
    lemma_views_of(s.reverse());
    assert forall|i: int| 0 <= i < s.len() implies plan_items_view(s.reverse())[i]
        == plan_items_view(s).reverse()[i] by {
        assert(plan_items_view(s.reverse())[i] == s.reverse()[i]@);
        assert(s.reverse()[i] == s[s.len() - 1 - i]);
        assert(plan_items_view(s)[s.len() - 1 - i] == s[s.len() - 1 - i]@);
    }
}

/// When the newest eligible post on each side already has its equal on the
/// other side — nothing new was posted since the last run — the planner
/// plans nothing: running it twice never double-posts.
pub proof fn lemma_no_double_posting(tweets: Seq<Tweet>, toots: Seq<Status>, opts: SyncOptions)
    requires
        forall|i: int|
            0 <= i < tweets.len() && !tweet_skipped(#[trigger] tweets[i], opts)
                ==> exists_equal_toot(toots, tweets[i]),
        forall|i: int|
            0 <= i < toots.len() && !toot_skipped(#[trigger] toots[i], opts) && !toot_direct(
                toots[i],
            ) ==> exists_equal_tweet(tweets, toots[i]),
        forall|i: int|
            0 <= i < tweets.len() && is_self_reply(#[trigger] tweets[i]) ==> exists_equal_toot(
                toots,
                tweets[i],
            ),
    ensures
        final_toots_plan(tweets, toots, opts) == Seq::<PlanItemV>::empty(),
        final_tweets_plan(toots, tweets, opts) == Seq::<PlanItemV>::empty(),
{
    lemma_planned_toots_empty(tweets, toots, opts, 0);
    lemma_planned_tweets_empty(toots, tweets, opts, 0);
    lemma_replies_scan_empty(tweets, toots, opts, 0);
    assert(Seq::<ReplyV>::empty().reverse() =~= Seq::<ReplyV>::empty());
    assert(Seq::<PlanItemV>::empty().reverse() =~= Seq::<PlanItemV>::empty());
}

proof fn lemma_planned_toots_empty(
    tweets: Seq<Tweet>,
    toots: Seq<Status>,
    opts: SyncOptions,
    i: int,
)
    requires
        0 <= i <= tweets.len(),
        forall|k: int|
            0 <= k < tweets.len() && !tweet_skipped(#[trigger] tweets[k], opts)
                ==> exists_equal_toot(toots, tweets[k]),
    ensures
        planned_toots(tweets, toots, opts, i) == Seq::<PlanItemV>::empty(),
    decreases tweets.len() - i,
{
    if i < tweets.len() {
        lemma_planned_toots_empty(tweets, toots, opts, i + 1);
    }
}

proof fn lemma_planned_tweets_empty(
    toots: Seq<Status>,
    tweets: Seq<Tweet>,
    opts: SyncOptions,
    i: int,
)
    requires
        0 <= i <= toots.len(),
        forall|k: int|
            0 <= k < toots.len() && !toot_skipped(#[trigger] toots[k], opts) && !toot_direct(
                toots[k],
            ) ==> exists_equal_tweet(tweets, toots[k]),
    ensures
        planned_tweets(toots, tweets, opts, i) == Seq::<PlanItemV>::empty(),
    decreases toots.len() - i,
{
    if i < toots.len() {
        lemma_planned_tweets_empty(toots, tweets, opts, i + 1);
    }
}

proof fn lemma_replies_scan_empty(
    tweets: Seq<Tweet>,
    toots: Seq<Status>,
    opts: SyncOptions,
    i: int,
)
    requires
        0 <= i <= tweets.len(),
        forall|k: int|
            0 <= k < tweets.len() && is_self_reply(#[trigger] tweets[k]) ==> exists_equal_toot(
                toots,
                tweets[k],
            ),
    ensures
        replies_scan(tweets, toots, opts, i) == Seq::<ReplyV>::empty(),
    decreases tweets.len() - i,
{
    if i < tweets.len() {
        lemma_replies_scan_empty(tweets, toots, opts, i + 1);
    }
}

} // verus!
