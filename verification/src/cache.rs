//! The idempotency cache: the set of canonical texts already posted, kept to
//! stop sync loops. It is loaded at the start of a run, filters the plan just
//! before posting, grows only after a successful post, and resets to empty
//! once it outgrows its ceiling of 150 entries.

use vstd::prelude::*;

use crate::plan::{NewStatus, StatusUpdates};

verus! {

/// How many texts the cache may hold before a load resets it.
pub const CACHE_CEILING: usize = 150;

/// The views of a list of strings.
pub open spec fn str_views(v: Seq<String>) -> Seq<Seq<char>> {
    Seq::new(v.len(), |i: int| v[i]@)
}

/// The texts with later duplicates removed; each text keeps its first
/// position.
pub open spec fn dedup_spec(v: Seq<Seq<char>>) -> Seq<Seq<char>>
    decreases v.len(),
{
    if v.len() == 0 {
        v
    } else {
        let d = dedup_spec(v.drop_last());
        if d.contains(v.last()) {
            d
        } else {
            d.push(v.last())
        }
    }
}

/// What loading persisted entries gives: nothing for a missing or corrupt
/// store, the distinct texts when they fit the ceiling, and nothing once
/// they outgrow it.
pub open spec fn cache_load_spec(entries: Option<Seq<Seq<char>>>) -> Seq<Seq<char>> {
    match entries {
        Option::None => Seq::empty(),
        Option::Some(vs) => {
            let d = dedup_spec(vs);
            if d.len() > CACHE_CEILING as int {
                Seq::empty()
            } else {
                d
            }
        },
    }
}

/// Loading more than the ceiling's worth of distinct texts resets the cache
/// to empty rather than letting it grow without bound.
pub proof fn lemma_cache_reset(entries: Seq<Seq<char>>)
    requires
        dedup_spec(entries).len() > CACHE_CEILING as int,
    ensures
        cache_load_spec(Option::Some(entries)) == Seq::<Seq<char>>::empty(),
{
}

/// Distinct texts survive deduplication unchanged, so the reset law reaches
/// any list of more than the ceiling's worth of distinct texts.
pub proof fn lemma_dedup_distinct(entries: Seq<Seq<char>>)
    requires
        forall|i: int, j: int| 0 <= i < j < entries.len() ==> entries[i] != entries[j],
    ensures
        dedup_spec(entries) == entries,
    decreases entries.len(),
{
    if entries.len() > 0 {
        let head = entries.drop_last();
        lemma_dedup_distinct(head);
        assert(!head.contains(entries.last())) by {
            if head.contains(entries.last()) {
                let i = choose|i: int| 0 <= i < head.len() && head[i] == entries.last();
                assert(entries[i] == entries[entries.len() - 1]);
            }
        }
        assert(head.push(entries.last()) =~= entries);
    }
}

/// The set of canonical texts already posted.
#[derive(Debug)]
pub struct PostCache {
    entries: Vec<String>,
}

impl View for PostCache {
    type V = Seq<Seq<char>>;

    closed spec fn view(&self) -> Seq<Seq<char>> {
        str_views(self.entries@)
    }
}

impl PostCache {
    /// The empty cache.
    pub fn new() -> (r: PostCache)
        ensures
            r@ == Seq::<Seq<char>>::empty(),
    {
        let r = PostCache { entries: Vec::new() };
        proof {
            assert(r@ =~= Seq::<Seq<char>>::empty());
        }
        r
    }

    /// Whether a text was posted before.
    pub fn contains(&self, text: &String) -> (r: bool)
        ensures
            r == self@.contains(text@),
    {
        let n: usize = self.entries.len();
        let mut i: usize = 0;
        while i < n
            invariant
                i <= n,
                n == self.entries@.len(),
                forall|k: int| 0 <= k < i ==> self.entries@[k]@ != text@,
            decreases n - i,
        {
            if self.entries[i] == *text {
                proof {
                    assert(self@[i as int] == text@);
                }
                return true;
            }
            i += 1;
        }
        proof {
            assert(!self@.contains(text@)) by {
                if self@.contains(text@) {
                    let k = choose|k: int| 0 <= k < self@.len() && self@[k] == text@;
                    assert(self.entries@[k]@ == text@);
                }
            }
        }
        false
    }

    /// Records a text as posted; a text already present stays put.
    pub fn insert(&mut self, text: String)
        ensures
            final(self)@ == if old(self)@.contains(text@) {
                old(self)@
            } else {
                old(self)@.push(text@)
            },
    {
        if !self.contains(&text) {
            self.entries.push(text);
            proof {
                assert(self@ =~= old(self)@.push(text@));
            }
        }
    }

    /// The number of texts held.
    pub fn len(&self) -> (r: usize)
        ensures
            r == self@.len(),
    {
        self.entries.len()
    }

    /// The texts held, for persisting at the end of a run.
    pub fn items(&self) -> (r: &Vec<String>)
        ensures
            str_views(r@) == self@,
    {
        &self.entries
    }
}

/// Builds the cache from the entries a persisted store held, or from nothing
/// when the store was missing or corrupt. Duplicates go, and a store that
/// outgrew the ceiling is reset to empty so that growth stays bounded.
pub fn read_post_cache(entries: Option<Vec<String>>) -> (r: PostCache)
    ensures
        r@ == cache_load_spec(
            match entries {
                Option::Some(v) => Option::Some(str_views(v@)),
                Option::None => Option::None,
            },
        ),
{
    match entries {
        Option::None => PostCache::new(),
        Option::Some(v) => {
            let ghost vs = str_views(v@);
            let mut cache = PostCache::new();
            let n: usize = v.len();
            let mut i: usize = 0;
            proof {
                assert(vs.take(0) =~= Seq::<Seq<char>>::empty());
                assert(dedup_spec(vs.take(0)) == vs.take(0));
            }
            while i < n
                invariant
                    i <= n,
                    n == v@.len(),
                    vs == str_views(v@),
                    cache@ == dedup_spec(vs.take(i as int)),
                decreases n - i,
            {
                let s = v[i].clone();
                proof {
                    assert(s@ == vs[i as int]);
                    assert(vs.take(i + 1).drop_last() =~= vs.take(i as int));
                    assert(vs.take(i + 1).last() == vs[i as int]);
                }
                cache.insert(s);
                i += 1;
            }
            proof {
                assert(vs.take(n as int) =~= vs);
            }
            if cache.len() > CACHE_CEILING {
                PostCache::new()
            } else {
                cache
            }
        },
    }
}

/// Planned posts that the cache does not already hold, in their order.
pub open spec fn posts_not_cached(s: Seq<NewStatus>, cache: Seq<Seq<char>>) -> Seq<NewStatus>
    decreases s.len(),
{
    if s.len() == 0 {
        s
    } else {
        let rest = posts_not_cached(s.drop_first(), cache);
        if cache.contains(s[0].text@) {
            rest
        } else {
            seq![s[0]] + rest
        }
    }
}

/// Drops every planned post whose text was posted before, so that echoes of
/// a just-posted item never loop back as new posts.
pub fn filter_posted_before(posts: StatusUpdates, post_cache: &PostCache) -> (r: StatusUpdates)
    ensures
        r.tweets@ == posts_not_cached(posts.tweets@, post_cache@),
        r.toots@ == posts_not_cached(posts.toots@, post_cache@),
{
    let StatusUpdates { tweets, toots } = posts;
    StatusUpdates {
        tweets: filter_new_statuses(tweets, post_cache),
        toots: filter_new_statuses(toots, post_cache),
    }
}

/// Keeps the planned posts whose texts are not in the cache.
fn filter_new_statuses(list: Vec<NewStatus>, post_cache: &PostCache) -> (r: Vec<NewStatus>)
    ensures
        r@ == posts_not_cached(list@, post_cache@),
{
    let ghost orig = list@;
    let mut rest = list;
    let mut out: Vec<NewStatus> = Vec::new();
    proof {
        assert(orig.skip(0) =~= orig);
        assert(out@ + posts_not_cached(orig, post_cache@) =~= posts_not_cached(
            orig,
            post_cache@,
        ));
    }
    while rest.len() > 0
        invariant
            rest@.len() <= orig.len(),
            rest@ == orig.skip(orig.len() - rest@.len()),
            posts_not_cached(orig, post_cache@) == out@ + posts_not_cached(rest@, post_cache@),
        decreases rest@.len(),
    {
        let ghost k = orig.len() - rest@.len();
        proof {
            assert(orig.skip(k)[0] == orig[k]);
            assert(orig.skip(k).drop_first() =~= orig.skip(k + 1));
        }
        let item = rest.remove(0);
        proof {
            assert(item == orig[k]);
            assert(rest@ =~= orig.skip(k + 1));
            assert(posts_not_cached(orig.skip(k), post_cache@) == if post_cache@.contains(
                orig[k].text@,
            ) {
                posts_not_cached(orig.skip(k + 1), post_cache@)
            } else {
                seq![orig[k]] + posts_not_cached(orig.skip(k + 1), post_cache@)
            });
        }
        let ghost out_prev = out@;
        if !post_cache.contains(&item.text) {
            out.push(item);
            proof {
                assert(out@ + posts_not_cached(rest@, post_cache@) =~= out_prev + (seq![orig[k]]
                    + posts_not_cached(orig.skip(k + 1), post_cache@)));
            }
        }
    }
    proof {
        assert(rest@ =~= Seq::<NewStatus>::empty());
        assert(posts_not_cached(rest@, post_cache@) == rest@);
        assert(out@ + posts_not_cached(rest@, post_cache@) =~= out@);
    }
    out
}

} // verus!
