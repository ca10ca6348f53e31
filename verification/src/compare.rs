//! Cross-platform equivalence: whether a status from each platform is the
//! same post, tolerant of casing, scheme prefixes and the legacy boost and
//! mention markers that older posts carry.

use vstd::prelude::*;

use crate::canonical::{mastodon_toot_get_text, toot_text_spec, tweet_text_spec,
    tweet_unshorten_decode};
use crate::model::{tweet_wf, Status, Tweet};
use crate::shorten::{opt_str_view, tweet_shorten, tweet_shorten_spec};
use crate::text::{replace_all_spec, starts_with_spec, tail_from, starts_with_chars, replace_all,
    push_all};
use crate::textops::{chars_string, lower_of, lowercase_chars, str_chars};

verus! {

/// One legacy prefix rewrite: a text beginning with the old marker loses it
/// in favour of the plain `rt ` form.
pub open spec fn prefix_rewritten(s: Seq<char>, pat: Seq<char>) -> Seq<char> {
    if starts_with_spec(s, pat) {
        "rt "@ + s.skip(pat.len() as int)
    } else {
        s
    }
}

/// The unified form of a post's text: lower case, scheme prefixes removed,
/// legacy boost prefixes normalized, and both mention-escape markers reduced
/// to a plain mention.
pub open spec fn unified_of(s: Seq<char>) -> Seq<char> {
    let l = lower_of(s);
    let r1 = replace_all_spec(l, "http://"@, Seq::<char>::empty());
    let r2 = replace_all_spec(r1, "https://"@, Seq::<char>::empty());
    let p1 = prefix_rewritten(r2, "rt @\\"@);
    let p2 = prefix_rewritten(p1, "rt @"@);
    let p3 = prefix_rewritten(p2, "rt \\@"@);
    let e1 = replace_all_spec(p3, " \\@"@, " @"@);
    replace_all_spec(e1, " @\\"@, " @"@)
}

/// Two canonical texts count as the same post when their unified forms agree.
pub open spec fn canonical_texts_equal(a: Seq<char>, b: Seq<char>) -> bool {
    unified_of(a) == unified_of(b)
}

/// The unified comparison is symmetric: it cannot depend on which platform
/// supplied which text.
pub proof fn lemma_equal_symmetric(a: Seq<char>, b: Seq<char>)
    ensures
        canonical_texts_equal(a, b) == canonical_texts_equal(b, a),
{
}

/// Rewrites one legacy prefix of the text.
fn rewrite_prefix(v: Vec<char>, pat: &Vec<char>) -> (r: Vec<char>)
    ensures
        r@ == prefix_rewritten(v@, pat@),
{
    if starts_with_chars(&v, pat) {
        let mut out = str_chars("rt ");
        let tail = tail_from(&v, pat.len());
        push_all(&mut out, &tail);
        out
    } else {
        v
    }
}

/// Unifies a post's text to the common comparison format.
pub fn unify_post_content(content: String) -> (r: String)
    ensures
        r@ == unified_of(content@),
{
    let chars = str_chars(content.as_str());
    let l = lowercase_chars(&chars);
    let r1 = crate::text::remove_all(&l, &str_chars("http://"));
    let r2 = crate::text::remove_all(&r1, &str_chars("https://"));
    let p1 = rewrite_prefix(r2, &str_chars("rt @\\"));
    let p2 = rewrite_prefix(p1, &str_chars("rt @"));
    let p3 = rewrite_prefix(p2, &str_chars("rt \\@"));
    let plain = str_chars(" @");
    let e1 = replace_all(&p3, &str_chars(" \\@"), &plain);
    let e2 = replace_all(&e1, &str_chars(" @\\"), &plain);
    chars_string(&e2)
}

/// The link that a shortened toot would carry: the boosted post's address
/// for a boost, the toot's own address otherwise.
pub open spec fn toot_link_of(toot: Status) -> Option<Seq<char>> {
    match toot.reblog {
        Option::None => opt_str_view(toot.url),
        Option::Some(rb) => opt_str_view(rb.url),
    }
}

/// Whether a toot and a tweet are the same post: both must be replies or
/// both top-level, and their unified canonical texts must agree, directly or
/// after shortening the toot to the tweet's budget.
pub open spec fn statuses_equal(toot: Status, tweet: Tweet) -> bool {
    if toot.in_reply_to_id.is_some() != tweet.in_reply_to_status_id.is_some() {
        false
    } else {
        let a = toot_text_spec(toot);
        let b = tweet_text_spec(tweet, true);
        canonical_texts_equal(a, b) || canonical_texts_equal(
            tweet_shorten_spec(unified_of(a), toot_link_of(toot)),
            b,
        )
    }
}

/// Decides whether a toot and a tweet are the same post.
pub fn toot_and_tweet_are_equal(toot: &Status, tweet: &Tweet) -> (r: bool)
    requires
        tweet_wf(*tweet),
    ensures
        r == statuses_equal(*toot, *tweet),
{
    if toot.in_reply_to_id.is_some() != tweet.in_reply_to_status_id.is_some() {
        return false;
    }
    let toot_text = unify_post_content(mastodon_toot_get_text(toot));
    let tweet_text = unify_post_content(tweet_unshorten_decode(tweet));
    if toot_text == tweet_text {
        return true;
    }
    let link: &Option<String> = match &toot.reblog {
        Option::None => &toot.url,
        Option::Some(rb) => &rb.url,
    };
    proof {
        assert(opt_str_view(*link) == toot_link_of(*toot));
    }
    let shortened = unify_post_content(tweet_shorten(toot_text.as_str(), link));
    shortened == tweet_text
}

} // verus!
