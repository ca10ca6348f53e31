//! Thread reconstruction: self-replies on the microblogging platform are
//! mirrored as nested replies on the federated platform. A reply hangs off
//! the pending post it answers when that parent is itself in the plan, or
//! becomes a reply to the already-synced copy of its parent; a reply whose
//! parent is neither pending nor synced is dropped.

use vstd::prelude::*;

use crate::attachments::{media_views, tweet_attachments_spec, tweet_get_attachments};
use crate::canonical::{tweet_text_spec, tweet_unshorten_decode};
use crate::compare::statuses_equal;
use crate::model::{tweets_wf, tweet_wf, Status, Tweet};
use crate::plan::{
    lemma_views_of, plan_items_view, MediaV, NewMedia, NewStatus, PlanItemV, StatusUpdates,
};
use crate::sync::{
    any_equal_toot, exists_equal_toot, tweet_hashtag_missing, SyncOptions,
};
use crate::text::contains_chars;
use crate::textops::str_chars;

verus! {

broadcast use vstd::std_specs::vec::group_vec_axioms, vstd::seq::group_seq_axioms;

/// A reply to a post, with the id of the post it answers.
#[derive(Debug)]
pub struct Reply {
    pub id: u64,
    pub text: String,
    pub attachments: Vec<NewMedia>,
    pub in_reply_to_id: u64,
}

/// Ghost image of a collected reply.
pub ghost struct ReplyV {
    pub id: u64,
    pub text: Seq<char>,
    pub attachments: Seq<MediaV>,
    pub in_reply_to_id: u64,
}

impl View for Reply {
    type V = ReplyV;

    open spec fn view(&self) -> ReplyV {
        ReplyV {
            id: self.id,
            text: self.text@,
            attachments: media_views(self.attachments@),
            in_reply_to_id: self.in_reply_to_id,
        }
    }
}

/// Whether a tweet answers a post of its own author.
pub open spec fn is_self_reply(t: Tweet) -> bool {
    match (t.in_reply_to_user_id, t.user) {
        (Option::Some(uid), Option::Some(u)) => uid == u.id,
        _ => false,
    }
}

/// The parent id of a reply tweet.
pub open spec fn reply_parent_of(t: Tweet) -> u64 {
    match t.in_reply_to_status_id {
        Option::Some(p) => p,
        Option::None => 0,
    }
}

/// The collected image of one reply tweet.
pub open spec fn reply_item(t: Tweet) -> ReplyV {
    ReplyV {
        id: t.id,
        text: tweet_text_spec(t, true),
        attachments: tweet_attachments_spec(t),
        in_reply_to_id: reply_parent_of(t),
    }
}

/// The self-replies accepted by the scan, in timeline order. The scan stops
/// entirely at the first self-reply that already has an equal toot: that
/// point and everything older is already synced.
pub open spec fn replies_scan(
    tweets: Seq<Tweet>,
    toots: Seq<Status>,
    opts: SyncOptions,
    i: int,
) -> Seq<ReplyV>
    decreases tweets.len() - i,
{
    if i < 0 || i >= tweets.len() {
        Seq::empty()
    } else {
        let t = tweets[i];
        if t.in_reply_to_user_id.is_none() {
            replies_scan(tweets, toots, opts, i + 1)
        } else if !is_self_reply(t) {
            replies_scan(tweets, toots, opts, i + 1)
        } else if exists_equal_toot(toots, t) {
            Seq::empty()
        } else if tweet_hashtag_missing(t, opts) {
            replies_scan(tweets, toots, opts, i + 1)
        } else {
            seq![reply_item(t)] + replies_scan(tweets, toots, opts, i + 1)
        }
    }
}

/// A plan node for a reply that starts a fresh thread under an
/// already-synced parent.
pub open spec fn reply_under_parent(r: ReplyV, toot_id: u64) -> PlanItemV {
    PlanItemV {
        text: r.text,
        attachments: r.attachments,
        replies: Seq::empty(),
        in_reply_to_id: Option::Some(toot_id),
        original_id: r.id,
    }
}

/// A plan node for a reply whose parent is itself pending: the real parent
/// id is not known yet.
pub open spec fn reply_leaf(r: ReplyV) -> PlanItemV {
    PlanItemV {
        text: r.text,
        attachments: r.attachments,
        replies: Seq::empty(),
        in_reply_to_id: Option::None,
        original_id: r.id,
    }
}

/// Tries to hang a reply under a plan node or any of its nested replies;
/// gives the node back unchanged when the parent is nowhere in it.
pub open spec fn insert_reply_spec(item: PlanItemV, r: ReplyV) -> (PlanItemV, bool)
    decreases item, 1int,
{
    if r.in_reply_to_id == item.original_id {
        (PlanItemV { replies: item.replies.push(reply_leaf(r)), ..item }, true)
    } else {
        let (cs, ok) = insert_reply_seq(item.replies, r);
        (PlanItemV { replies: cs, ..item }, ok)
    }
}

/// Tries each node in order; the first success wins.
pub open spec fn insert_reply_seq(items: Seq<PlanItemV>, r: ReplyV) -> (Seq<PlanItemV>, bool)
    decreases items, 0int,
{
    if items.len() == 0 {
        (items, false)
    } else {
        let (n0, ok) = insert_reply_spec(items[0], r);
        if ok {
            (seq![n0] + items.drop_first(), true)
        } else {
            let (rest, ok2) = insert_reply_seq(items.drop_first(), r);
            (seq![items[0]] + rest, ok2)
        }
    }
}

/// The first toot that equals the tweet, scanning from `j`.
pub open spec fn first_equal_toot_from(toots: Seq<Status>, t: Tweet, j: int) -> Option<int>
    decreases toots.len() - j,
{
    if j < 0 || j >= toots.len() {
        Option::None
    } else if statuses_equal(toots[j], t) {
        Option::Some(j)
    } else {
        first_equal_toot_from(toots, t, j + 1)
    }
}

/// The id of the already-synced toot that mirrors the reply's parent tweet:
/// the first tweet with the parent's id that has an equal toot decides, and
/// the first equal toot supplies the id.
pub open spec fn find_synced_parent(
    tweets: Seq<Tweet>,
    toots: Seq<Status>,
    parent: u64,
    i: int,
) -> Option<u64>
    decreases tweets.len() - i,
{
    if i < 0 || i >= tweets.len() {
        Option::None
    } else if tweets[i].id == parent {
        match first_equal_toot_from(toots, tweets[i], 0) {
            Option::Some(j) => Option::Some(toots[j].id),
            Option::None => find_synced_parent(tweets, toots, parent, i + 1),
        }
    } else {
        find_synced_parent(tweets, toots, parent, i + 1)
    }
}

/// Grafts each collected reply onto the plan: under its pending parent when
/// that is in the plan, as a fresh node under an already-synced parent
/// otherwise, and nowhere when the parent is unknown.
pub open spec fn insert_all_spec(
    plan: Seq<PlanItemV>,
    replies: Seq<ReplyV>,
    tweets: Seq<Tweet>,
    toots: Seq<Status>,
) -> Seq<PlanItemV>
    decreases replies.len(),
{
    if replies.len() == 0 {
        plan
    } else {
        let r = replies[0];
        let (p2, ok) = insert_reply_seq(plan, r);
        if ok {
            insert_all_spec(p2, replies.drop_first(), tweets, toots)
        } else {
            match find_synced_parent(tweets, toots, r.in_reply_to_id, 0) {
                Option::Some(toot_id) => insert_all_spec(
                    plan.push(reply_under_parent(r, toot_id)),
                    replies.drop_first(),
                    tweets,
                    toots,
                ),
                Option::None => insert_all_spec(plan, replies.drop_first(), tweets, toots),
            }
        }
    }
}

/// When the first nodes all refuse a reply and node `k` takes it, the list
/// insertion updates exactly node `k`.
proof fn lemma_insert_seq_at(items: Seq<PlanItemV>, r: ReplyV, k: int)
    requires
        0 <= k < items.len(),
        forall|idx: int| 0 <= idx < k ==> !(#[trigger] insert_reply_spec(items[idx], r)).1,
        insert_reply_spec(items[k], r).1,
    ensures
        insert_reply_seq(items, r) == (items.update(k, insert_reply_spec(items[k], r).0), true),
    decreases k,
{
    if k == 0 {
        assert(insert_reply_spec(items[0], r).1);
        assert(seq![insert_reply_spec(items[0], r).0] + items.drop_first() =~= items.update(
            0,
            insert_reply_spec(items[0], r).0,
        ));
    } else {
        assert(!insert_reply_spec(items[0], r).1);
        assert forall|idx: int|
            0 <= idx < k - 1 implies !(#[trigger] insert_reply_spec(
            items.drop_first()[idx],
            r,
        )).1 by {
            assert(items.drop_first()[idx] == items[idx + 1]);
            assert(!insert_reply_spec(items[idx + 1], r).1);
        }
        assert(items.drop_first()[k - 1] == items[k]);
        lemma_insert_seq_at(items.drop_first(), r, k - 1);
        assert(seq![items[0]] + items.drop_first().update(
            k - 1,
            insert_reply_spec(items[k], r).0,
        ) =~= items.update(k, insert_reply_spec(items[k], r).0));
    }
}

/// When every node refuses a reply, the list insertion changes nothing.
proof fn lemma_insert_seq_none(items: Seq<PlanItemV>, r: ReplyV)
    requires
        forall|idx: int| 0 <= idx < items.len() ==> !(#[trigger] insert_reply_spec(items[idx], r)).1,
    ensures
        insert_reply_seq(items, r) == (items, false),
    decreases items.len(),
{
    if items.len() > 0 {
        assert(!insert_reply_spec(items[0], r).1);
        assert forall|idx: int|
            0 <= idx < items.drop_first().len() implies !(#[trigger] insert_reply_spec(
            items.drop_first()[idx],
            r,
        )).1 by {
            assert(items.drop_first()[idx] == items[idx + 1]);
            assert(!insert_reply_spec(items[idx + 1], r).1);
        }
        lemma_insert_seq_none(items.drop_first(), r);
        assert(seq![items[0]] + items.drop_first() =~= items);
    }
}

/// A node that refused a reply comes back unchanged.
proof fn lemma_insert_spec_unchanged(item: PlanItemV, r: ReplyV)
    ensures
        !insert_reply_spec(item, r).1 ==> insert_reply_spec(item, r).0 == item,
    decreases item, 1int,
{
    if r.in_reply_to_id != item.original_id {
        lemma_insert_seq_unchanged(item.replies, r);
    }
}

/// A list that refused a reply comes back unchanged.
proof fn lemma_insert_seq_unchanged(items: Seq<PlanItemV>, r: ReplyV)
    ensures
        !insert_reply_seq(items, r).1 ==> insert_reply_seq(items, r).0 == items,
    decreases items, 0int,
{
    if items.len() > 0 {
        lemma_insert_spec_unchanged(items[0], r);
        lemma_insert_seq_unchanged(items.drop_first(), r);
        if !insert_reply_seq(items, r).1 {
            assert(seq![items[0]] + items.drop_first() =~= items);
        }
    }
}

/// Copies a list of planned attachments.
fn clone_new_media_vec(v: &Vec<NewMedia>) -> (r: Vec<NewMedia>)
    ensures
        r@ == v@,
{
    let mut out: Vec<NewMedia> = Vec::new();
    let n: usize = v.len();
    let mut i: usize = 0;
    while i < n
        invariant
            i <= n,
            n == v@.len(),
            out@ =~= v@.take(i as int),
        decreases n - i,
    {
        let m = &v[i];
        let alt: Option<String> = match &m.alt_text {
            Option::Some(s) => Option::Some(s.clone()),
            Option::None => Option::None,
        };
        let copy = NewMedia { attachment_url: m.attachment_url.clone(), alt_text: alt };
        proof {
            assert(copy == v@[i as int]);
        }
        out.push(copy);
        i += 1;
    }
    proof {
        assert(out@ =~= v@);
    }
    out
}

/// Builds the plan node for a reply whose parent is itself pending.
fn reply_leaf_status(reply: &Reply) -> (r: NewStatus)
    ensures
        r@ == reply_leaf(reply@),
{
    let r = NewStatus {
        text: reply.text.clone(),
        attachments: clone_new_media_vec(&reply.attachments),
        replies: Vec::new(),
        in_reply_to_id: Option::None,
        original_id: reply.id,
    };
    proof {
        assert(plan_items_view(r.replies@) =~= Seq::<PlanItemV>::empty());
        assert(r@ == reply_leaf(reply@));
    }
    r
}

/// Structural weight of a plan node, nested replies included.
pub open spec fn plan_size(p: PlanItemV) -> nat
    decreases p, 1int,
{
    1 + plan_seq_size(p.replies)
}

/// Structural weight of a list of plan nodes.
pub open spec fn plan_seq_size(s: Seq<PlanItemV>) -> nat
    decreases s, 0int,
{
    if s.len() == 0 {
        0
    } else {
        plan_size(s[0]) + plan_seq_size(s.drop_first())
    }
}

/// Every member weighs no more than its list.
proof fn lemma_plan_seq_size_elem(s: Seq<PlanItemV>, i: int)
    requires
        0 <= i < s.len(),
    ensures
        plan_size(s[i]) <= plan_seq_size(s),
    decreases s.len(),
{
    if i > 0 {
        lemma_plan_seq_size_elem(s.drop_first(), i - 1);
        assert(s.drop_first()[i - 1] == s[i]);
    }
}

/// Hangs the reply under this status or any of its nested replies when one
/// of them is its parent; reports whether it found the parent.
pub fn insert_reply_on_status(status: &mut NewStatus, reply: &Reply) -> (ok: bool)
    ensures
        (final(status)@, ok) == insert_reply_spec(old(status)@, reply@),
    decreases plan_size(old(status)@),
{
    let ghost orig = old(status)@;
    if reply.in_reply_to_id == status.original_id {
        let leaf = reply_leaf_status(reply);
        let ghost replies_prev = status.replies@;
        proof {
            assert(replies_prev == old(status).replies@);
        }
        status.replies.push(leaf);
        proof {
            crate::plan::lemma_views_push(replies_prev, leaf);
            assert(status@.replies == orig.replies.push(reply_leaf(reply@)));
        }
        return true;
    }
    let n: usize = status.replies.len();
    let ghost osize = plan_size(orig);
    proof {
        lemma_views_of(status.replies@);
    }
    let mut i: usize = 0;
    while i < n
        invariant
            i <= n,
            n == status.replies@.len(),
            status.text == old(status).text,
            status.attachments == old(status).attachments,
            status.in_reply_to_id == old(status).in_reply_to_id,
            status.original_id == old(status).original_id,
            orig == old(status)@,
            osize == plan_size(orig),
            orig.replies.len() == n,
            reply@.in_reply_to_id != orig.original_id,
            plan_items_view(status.replies@) == orig.replies,
            forall|k: int| 0 <= k < i ==> !(#[trigger] insert_reply_spec(orig.replies[k], reply@)).1,
        decreases n - i,
    {
        proof {
            lemma_views_of(status.replies@);
        }
        let ghost pre = status.replies@;
        let mut child = status.replies.remove(i);
        let ghost child_view = child@;
        proof {
            assert(child_view == orig.replies[i as int]);
            assert(plan_size(child_view) < osize) by {
                lemma_plan_seq_size_elem(orig.replies, i as int);
            }
        }
        let ok = insert_reply_on_status(&mut child, reply);
        let ghost new_child_view = child@;
        status.replies.insert(i, child);
        proof {
            assert(status.replies@ =~= pre.update(i as int, child));
            crate::plan::lemma_views_update(pre, i as int, child);
            assert(plan_items_view(status.replies@) == orig.replies.update(
                i as int,
                new_child_view,
            ));
        }
        if ok {
            proof {
                lemma_insert_seq_at(orig.replies, reply@, i as int);
                assert(status@.replies == insert_reply_seq(orig.replies, reply@).0);
            }
            return true;
        }
        proof {
            lemma_insert_spec_unchanged(child_view, reply@);
            assert(orig.replies.update(i as int, new_child_view) =~= orig.replies);
        }
        i += 1;
    }
    proof {
        lemma_insert_seq_none(orig.replies, reply@);
        assert(status@ =~= orig);
    }
    false
}

/// The ghost images of collected replies.
pub open spec fn reply_views(s: Seq<Reply>) -> Seq<ReplyV> {
    Seq::new(s.len(), |i: int| s[i]@)
}

/// Finds thread replies on the microblogging side that are not mirrored yet
/// and grafts them onto the plan, each under its parent.
pub fn determine_thread_replies(
    mastodon_statuses: &Vec<Status>,
    twitter_statuses: &Vec<Tweet>,
    options: &SyncOptions,
    sync_statuses: &mut StatusUpdates,
)
    requires
        tweets_wf(twitter_statuses@),
    ensures
        final(sync_statuses).tweets@ == old(sync_statuses).tweets@,
        plan_items_view(final(sync_statuses).toots@) == insert_all_spec(
            plan_items_view(old(sync_statuses).toots@),
            replies_scan(twitter_statuses@, mastodon_statuses@, *options, 0).reverse(),
            twitter_statuses@,
            mastodon_statuses@,
        ),
{
    let mut replies: Vec<Reply> = Vec::new();
    let n: usize = twitter_statuses.len();
    let mut i: usize = 0;
    let mut stopped = false;
    while i < n && !stopped
        invariant
            i <= n,
            n == twitter_statuses@.len(),
            tweets_wf(twitter_statuses@),
            replies_scan(twitter_statuses@, mastodon_statuses@, *options, 0) == if stopped {
                reply_views(replies@)
            } else {
                reply_views(replies@) + replies_scan(
                    twitter_statuses@,
                    mastodon_statuses@,
                    *options,
                    i as int,
                )
            },
        decreases n - i, (if stopped { 0int } else { 1int }),
    {
        let tweet = &twitter_statuses[i];
        proof {
            assert(tweet_wf(twitter_statuses@[i as int]));
        }
        match &tweet.in_reply_to_user_id {
            Option::Some(user_id) => {
                if *user_id != tweet.user.as_ref().unwrap().id {
                    i += 1;
                } else if any_equal_toot(mastodon_statuses, tweet) {
                    stopped = true;
                } else {
                    let decoded_tweet = tweet_unshorten_decode(tweet);
                    let mut skip = false;
                    match &options.sync_hashtag_twitter {
                        Option::Some(tag) => {
                            let tag_chars = str_chars(tag.as_str());
                            if tag_chars.len() > 0 {
                                let text_chars = str_chars(decoded_tweet.as_str());
                                if !contains_chars(&text_chars, &tag_chars) {
                                    skip = true;
                                }
                            }
                        },
                        Option::None => {},
                    }
                    if !skip {
                        let parent: u64 = match &tweet.in_reply_to_status_id {
                            Option::Some(p) => *p,
                            Option::None => 0,
                        };
                        let item = Reply {
                            id: tweet.id,
                            text: decoded_tweet,
                            attachments: tweet_get_attachments(tweet),
                            in_reply_to_id: parent,
                        };
                        proof {
                            assert(item@ == reply_item(twitter_statuses@[i as int]));
                        }
                        let ghost replies_prev = replies@;
                        replies.push(item);
                        proof {
                            assert(reply_views(replies@) =~= reply_views(replies_prev).push(
                                reply_item(twitter_statuses@[i as int]),
                            ));
                            assert(reply_views(replies_prev).push(
                                reply_item(twitter_statuses@[i as int]),
                            ) + replies_scan(
                                twitter_statuses@,
                                mastodon_statuses@,
                                *options,
                                i + 1,
                            ) =~= reply_views(replies_prev) + (seq![
                                reply_item(twitter_statuses@[i as int]),
                            ] + replies_scan(
                                twitter_statuses@,
                                mastodon_statuses@,
                                *options,
                                i + 1,
                            )));
                        }
                        i += 1;
                    } else {
                        i += 1;
                    }
                }
            },
            Option::None => {
                i += 1;
            },
        }
    }
    proof {
        if !stopped {
            assert(replies_scan(twitter_statuses@, mastodon_statuses@, *options, n as int)
                == Seq::<ReplyV>::empty());
            assert(reply_views(replies@) + Seq::<ReplyV>::empty() =~= reply_views(replies@));
        }
    }
    let ghost collected = replies@;
    crate::plan::reverse_vec(&mut replies);
    proof {
        lemma_reply_views_reverse(collected);
    }
    insert_twitter_replies(&mut sync_statuses.toots, replies, twitter_statuses, mastodon_statuses);
}

/// The images of a reversed list are the reversed images.
proof fn lemma_reply_views_reverse(s: Seq<Reply>)
    ensures
        reply_views(s.reverse()) =~= reply_views(s).reverse(),
{
}

/// Inserts each collected reply into the plan, under its pending parent when
/// that is planned, under the already-synced copy of its parent otherwise.
fn insert_twitter_replies(
    sync_statuses: &mut Vec<NewStatus>,
    replies: Vec<Reply>,
    twitter_statuses: &Vec<Tweet>,
    mastodon_statuses: &Vec<Status>,
)
    requires
        tweets_wf(twitter_statuses@),
    ensures
        plan_items_view(final(sync_statuses)@) == insert_all_spec(
            plan_items_view(old(sync_statuses)@),
            reply_views(replies@),
            twitter_statuses@,
            mastodon_statuses@,
        ),
{
    let ghost all = reply_views(replies@);
    let mut rest = replies;
    proof {
        assert(all.skip(0) =~= all);
    }
    while rest.len() > 0
        invariant
            tweets_wf(twitter_statuses@),
            rest@.len() <= all.len(),
            reply_views(rest@) == all.skip(all.len() - rest@.len()),
            insert_all_spec(
                plan_items_view(old(sync_statuses)@),
                all,
                twitter_statuses@,
                mastodon_statuses@,
            ) == insert_all_spec(
                plan_items_view(sync_statuses@),
                reply_views(rest@),
                twitter_statuses@,
                mastodon_statuses@,
            ),
        decreases rest@.len(),
    {
        let ghost k = all.len() - rest@.len();
        proof {
            assert(all.skip(k)[0] == all[k]);
            assert(all.skip(k).drop_first() =~= all.skip(k + 1));
        }
        let reply = rest.remove(0);
        proof {
            assert(reply@ == all[k]);
            assert(reply_views(rest@) =~= all.skip(k + 1));
        }
        let ghost plan_before = plan_items_view(sync_statuses@);
        proof {
            lemma_views_of(sync_statuses@);
        }
        let mut inserted = false;
        let m: usize = sync_statuses.len();
        let mut j: usize = 0;
        while j < m && !inserted
            invariant
                j <= m,
                m == sync_statuses@.len(),
                plan_before.len() == m,
                inserted ==> insert_reply_seq(plan_before, reply@) == (
                    plan_items_view(sync_statuses@),
                    true,
                ),
                !inserted ==> plan_items_view(sync_statuses@) == plan_before,
                !inserted ==> forall|idx: int|
                    0 <= idx < j ==> !(#[trigger] insert_reply_spec(plan_before[idx], reply@)).1,
            decreases m - j, (if inserted { 0int } else { 1int }),
        {
            proof {
                lemma_views_of(sync_statuses@);
            }
            let ghost pre = sync_statuses@;
            let mut node = sync_statuses.remove(j);
            let ghost node_view = node@;
            proof {
                assert(node_view == plan_before[j as int]);
            }
            let ok = insert_reply_on_status(&mut node, &reply);
            let ghost new_node_view = node@;
            sync_statuses.insert(j, node);
            proof {
                assert(sync_statuses@ =~= pre.update(j as int, node));
                crate::plan::lemma_views_update(pre, j as int, node);
                assert(plan_items_view(sync_statuses@) == plan_before.update(
                    j as int,
                    new_node_view,
                ));
            }
            if ok {
                inserted = true;
                proof {
                    lemma_insert_seq_at(plan_before, reply@, j as int);
                }
            } else {
                proof {
                    lemma_insert_spec_unchanged(node_view, reply@);
                    assert(plan_before.update(j as int, new_node_view) =~= plan_before);
                }
            }
            j += 1;
        }
        if inserted {
            proof {
                assert(insert_all_spec(plan_before, all.skip(k), twitter_statuses@,
                mastodon_statuses@) == insert_all_spec(
                    plan_items_view(sync_statuses@),
                    all.skip(k + 1),
                    twitter_statuses@,
                    mastodon_statuses@,
                ));
            }
        } else {
            proof {
                lemma_insert_seq_none(plan_before, reply@);
            }
            match find_parent_toot_id(twitter_statuses, mastodon_statuses, reply.in_reply_to_id) {
                Option::Some(toot_id) => {
                    let node = NewStatus {
                        text: reply.text.clone(),
                        attachments: clone_new_media_vec(&reply.attachments),
                        replies: Vec::new(),
                        in_reply_to_id: Option::Some(toot_id),
                        original_id: reply.id,
                    };
                    proof {
                        assert(plan_items_view(node.replies@) =~= Seq::<PlanItemV>::empty());
                        assert(node@ == reply_under_parent(reply@, toot_id));
                    }
                    let ghost vec_prev = sync_statuses@;
                    sync_statuses.push(node);
                    proof {
                        crate::plan::lemma_views_push(vec_prev, node);
                        assert(plan_items_view(sync_statuses@) == plan_before.push(
                            reply_under_parent(reply@, toot_id),
                        ));
                        assert(insert_all_spec(plan_before, all.skip(k), twitter_statuses@,
                        mastodon_statuses@) == insert_all_spec(
                            plan_items_view(sync_statuses@),
                            all.skip(k + 1),
                            twitter_statuses@,
                            mastodon_statuses@,
                        ));
                    }
                },
                Option::None => {
                    proof {
                        assert(insert_all_spec(plan_before, all.skip(k), twitter_statuses@,
                        mastodon_statuses@) == insert_all_spec(
                            plan_items_view(sync_statuses@),
                            all.skip(k + 1),
                            twitter_statuses@,
                            mastodon_statuses@,
                        ));
                    }
                },
            }
        }
    }
    proof {
        assert(reply_views(rest@) =~= Seq::<ReplyV>::empty());
    }
}

/// Finds the already-synced toot that mirrors the parent tweet, and hands
/// back its id.
fn find_parent_toot_id(
    twitter_statuses: &Vec<Tweet>,
    mastodon_statuses: &Vec<Status>,
    parent: u64,
) -> (r: Option<u64>)
    requires
        tweets_wf(twitter_statuses@),
    ensures
        r == find_synced_parent(twitter_statuses@, mastodon_statuses@, parent, 0),
{
    let n: usize = twitter_statuses.len();
    let mut i: usize = 0;
    while i < n
        invariant
            i <= n,
            n == twitter_statuses@.len(),
            tweets_wf(twitter_statuses@),
            find_synced_parent(twitter_statuses@, mastodon_statuses@, parent, 0)
                == find_synced_parent(twitter_statuses@, mastodon_statuses@, parent, i as int),
        decreases n - i,
    {
        if twitter_statuses[i].id == parent {
            proof {
                assert(tweet_wf(twitter_statuses@[i as int]));
            }
            match first_equal_toot_idx(mastodon_statuses, &twitter_statuses[i]) {
                Option::Some(j) => {
                    return Option::Some(mastodon_statuses[j].id);
                },
                Option::None => {},
            }
        }
        i += 1;
    }
    Option::None
}

/// Finds the first toot equal to the tweet.
fn first_equal_toot_idx(toots: &Vec<Status>, tweet: &Tweet) -> (r: Option<usize>)
    requires
        tweet_wf(*tweet),
    ensures
        match r {
            Option::Some(j) => 0 <= j < toots@.len() && first_equal_toot_from(toots@, *tweet, 0)
                == Option::Some(j as int),
            Option::None => first_equal_toot_from(toots@, *tweet, 0) == Option::<int>::None,
        },
{
    let n: usize = toots.len();
    let mut j: usize = 0;
    while j < n
        invariant
            j <= n,
            n == toots@.len(),
            tweet_wf(*tweet),
            first_equal_toot_from(toots@, *tweet, 0) == first_equal_toot_from(
                toots@,
                *tweet,
                j as int,
            ),
        decreases n - j,
    {
        if crate::compare::toot_and_tweet_are_equal(&toots[j], tweet) {
            return Option::Some(j);
        }
        j += 1;
    }
    Option::None
}

} // verus!
