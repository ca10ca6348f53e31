//! The plan that a reconciliation run produces: the posts to create on each
//! platform, replies nested under the parent they answer, and the ghost
//! records the contracts speak about.

use vstd::prelude::*;

verus! {

broadcast use vstd::std_specs::vec::group_vec_axioms, vstd::seq::group_seq_axioms;

/// A media attachment of a planned post.
#[derive(Clone, Debug)]
pub struct NewMedia {
    pub attachment_url: String,
    pub alt_text: Option<String>,
}

/// A post that should be created, together with the replies that must be
/// posted under it once its own id is known.
#[derive(Debug)]
pub struct NewStatus {
    pub text: String,
    pub attachments: Vec<NewMedia>,
    pub replies: Vec<NewStatus>,
    pub in_reply_to_id: Option<u64>,
    pub original_id: u64,
}

/// New posts for each platform, oldest first once the plan is finished.
#[derive(Debug)]
pub struct StatusUpdates {
    pub tweets: Vec<NewStatus>,
    pub toots: Vec<NewStatus>,
}

/// What a run synchronizes and which posts it filters.
#[derive(Clone, Debug)]
pub struct SyncOptions {
    pub sync_reblogs: bool,
    pub sync_retweets: bool,
    pub sync_hashtag_twitter: Option<String>,
    pub sync_hashtag_mastodon: Option<String>,
}

/// Ghost image of a planned attachment.
pub ghost struct MediaV {
    pub url: Seq<char>,
    pub alt: Option<Seq<char>>,
}

/// Ghost image of a planned post, replies included.
pub ghost struct PlanItemV {
    pub text: Seq<char>,
    pub attachments: Seq<MediaV>,
    pub replies: Seq<PlanItemV>,
    pub in_reply_to_id: Option<u64>,
    pub original_id: u64,
}

impl View for NewMedia {
    type V = MediaV;

    open spec fn view(&self) -> MediaV {
        MediaV {
            url: self.attachment_url@,
            alt: match self.alt_text {
                Option::Some(ref s) => Option::Some(s@),
                Option::None => Option::None,
            },
        }
    }
}

/// Ghost image of one planned post.
pub open spec fn plan_item_view(s: NewStatus) -> PlanItemV
    decreases s, 1int,
{
    PlanItemV {
        text: s.text@,
        attachments: Seq::new(s.attachments@.len(), |i: int| s.attachments@[i]@),
        replies: plan_items_view(s.replies@),
        in_reply_to_id: s.in_reply_to_id,
        original_id: s.original_id,
    }
}

/// Ghost images of a list of planned posts, in order.
pub open spec fn plan_items_view(v: Seq<NewStatus>) -> Seq<PlanItemV>
    decreases v, 0int,
{
    if v.len() == 0 {
        Seq::empty()
    } else {
        seq![plan_item_view(v[0])] + plan_items_view(v.drop_first())
    }
}

impl View for NewStatus {
    type V = PlanItemV;

    open spec fn view(&self) -> PlanItemV {
        plan_item_view(*self)
    }
}

/// The ghost images of a list of planned posts.
pub open spec fn views_of(s: Seq<NewStatus>) -> Seq<PlanItemV> {
    plan_items_view(s)
}

/// The images of a list are the images of its members, in place.
pub proof fn lemma_views_of(s: Seq<NewStatus>)
    ensures
        views_of(s).len() == s.len(),
        forall|i: int| 0 <= i < s.len() ==> views_of(s)[i] == #[trigger] s[i]@,
    decreases s.len(),
{
    if s.len() > 0 {
        lemma_views_of(s.drop_first());
        assert forall|i: int| 0 <= i < s.len() implies views_of(s)[i] == #[trigger] s[i]@ by {
            if i > 0 {
                assert(views_of(s)[i] == views_of(s.drop_first())[i - 1]);
                assert(s.drop_first()[i - 1] == s[i]);
            }
        }
    }
}

/// Reverses a list in place.
pub fn reverse_vec<T>(v: &mut Vec<T>)
    ensures
        final(v)@ == old(v)@.reverse(),
{
    let ghost orig = old(v)@;
    let mut out: Vec<T> = Vec::new();
    proof {
        assert(orig.take(orig.len() as int) =~= orig);
        assert(orig.skip(orig.len() as int).reverse() =~= Seq::<T>::empty());
    }
    while v.len() > 0
        invariant
            v@.len() <= orig.len(),
            v@ == orig.take(v@.len() as int),
            out@ == orig.skip(v@.len() as int).reverse(),
        decreases v@.len(),
    {
        let ghost k = v@.len() as int;
        let x = v.pop().unwrap();
        out.push(x);
        proof {
            assert(v@ =~= orig.take(k - 1));
            assert(x == orig[k - 1]);
            assert(out@ =~= orig.skip(k - 1).reverse());
        }
    }
    proof {
        assert(orig.skip(0).reverse() =~= orig.reverse());
    }
    *v = out;
}

/// Pushing onto a plan list appends the pushed node's image.
pub proof fn lemma_views_push(s: Seq<NewStatus>, x: NewStatus)
    ensures
        plan_items_view(s.push(x)) == plan_items_view(s).push(plan_item_view(x)),
{
    lemma_views_of(s);
    lemma_views_of(s.push(x));
    assert forall|i: int| 0 <= i < s.len() + 1 implies plan_items_view(s.push(x))[i]
        == plan_items_view(s).push(plan_item_view(x))[i] by {
        assert(plan_items_view(s.push(x))[i] == s.push(x)[i]@);
        if i < s.len() {
            assert(s.push(x)[i] == s[i]);
            assert(plan_items_view(s)[i] == s[i]@);
        }
    }
    assert(plan_items_view(s.push(x)) =~= plan_items_view(s).push(plan_item_view(x)));
}

/// Updating one slot of a plan list updates exactly that image.
pub proof fn lemma_views_update(s: Seq<NewStatus>, i: int, x: NewStatus)
    requires
        0 <= i < s.len(),
    ensures
        plan_items_view(s.update(i, x)) == plan_items_view(s).update(i, plan_item_view(x)),
{
    lemma_views_of(s);
    lemma_views_of(s.update(i, x));
    assert forall|k: int| 0 <= k < s.len() implies plan_items_view(s.update(i, x))[k]
        == plan_items_view(s).update(i, plan_item_view(x))[k] by {
        assert(plan_items_view(s.update(i, x))[k] == s.update(i, x)[k]@);
        if k != i {
            assert(s.update(i, x)[k] == s[k]);
            assert(plan_items_view(s)[k] == s[k]@);
        }
    }
    assert(plan_items_view(s.update(i, x)) =~= plan_items_view(s).update(i, plan_item_view(x)));
}

impl StatusUpdates {
    /// Reverses the order of statuses in place, so that the oldest pending
    /// post comes first on both platforms.
    pub fn reverse_order(&mut self)
        ensures
            final(self).tweets@ == old(self).tweets@.reverse(),
            final(self).toots@ == old(self).toots@.reverse(),
    {
        reverse_vec(&mut self.tweets);
        reverse_vec(&mut self.toots);
    }
}

} // verus!
