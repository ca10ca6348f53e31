//! Length-adaptive shortening: fits a canonical text into a platform's
//! budget by trimming whole trailing words and appending a link back to the
//! full original. Repeated application is a no-op.

use vstd::prelude::*;

use crate::text::{
    dec_str_spec, drop_last_word, drop_word_spec, is_space_char, lemma_drop_word_strict,
    lemma_trim_noop, lemma_trim_props, push_all, tail_word_removed, trim_chars, trim_spec,
    u64_chars,
};
use crate::textops::{
    chars_string, grapheme_count, grapheme_tally, str_chars, tweet_weight, tweet_weight_of,
};

verus! {

/// The view of an optional string.
pub open spec fn opt_str_view(o: Option<String>) -> Option<Seq<char>> {
    match o {
        Option::Some(s) => Option::Some(s@),
        Option::None => Option::None,
    }
}

/// A link that can be appended to a shortened text without disturbing its
/// ends: non-empty and free of whitespace at both ends.
pub open spec fn link_ok(url: Option<Seq<char>>) -> bool {
    match url {
        Option::None => true,
        Option::Some(l) => l.len() > 0 && !is_space_char(l[0]) && !is_space_char(l.last()),
    }
}

/// The candidate for a shortened text: the kept words, an ellipsis, and the
/// link to the full original, or the kept words alone when no link is given.
pub open spec fn link_candidate(s: Seq<char>, url: Option<Seq<char>>) -> Seq<char> {
    match url {
        Option::None => s,
        Option::Some(l) => s + "\u{2026} "@ + l,
    }
}

/// A shortened text carries the way back: when a link was given, the text
/// ends with an ellipsis and that link.
pub open spec fn ends_with_link(r: Seq<char>, url: Option<Seq<char>>) -> bool {
    match url {
        Option::None => true,
        Option::Some(l) => r.len() >= l.len() + 2 && r.skip(r.len() - l.len() - 2) == "\u{2026} "@
            + l,
    }
}

#[via_fn]
proof fn tweet_shorten_loop_decreases(s: Seq<char>, url: Option<Seq<char>>) {
    if s.len() > 0 {
        lemma_drop_word_strict(s);
    }
}

/// The word-trimming loop: drops trailing words until the candidate fits the
/// weighted budget of 240; an exhausted text gives up with the empty text.
pub open spec fn tweet_shorten_loop(s: Seq<char>, url: Option<Seq<char>>) -> Seq<char>
    decreases s.len(),
    via tweet_shorten_loop_decreases
{
    if s.len() == 0 {
        Seq::empty()
    } else {
        let s1 = drop_word_spec(s);
        let c = link_candidate(s1, url);
        if tweet_weight_of(c) <= 240 {
            c
        } else {
            tweet_shorten_loop(s1, url)
        }
    }
}

/// What shortening a text for the link-weighing platform returns.
pub open spec fn tweet_shorten_spec(text: Seq<char>, url: Option<Seq<char>>) -> Seq<char> {
    let s0 = trim_spec(text);
    if tweet_weight_of(s0) <= 240 {
        s0
    } else {
        tweet_shorten_loop(s0, url)
    }
}

/// Whatever the loop returns is either the empty text or a candidate that
/// fits the budget and carries no whitespace at its ends.
proof fn lemma_tweet_loop_result(s: Seq<char>, url: Option<Seq<char>>)
    requires
        link_ok(url),
    ensures
        tweet_shorten_loop(s, url) == Seq::<char>::empty() || (tweet_weight_of(
            tweet_shorten_loop(s, url),
        ) <= 240 && trim_spec(tweet_shorten_loop(s, url)) == tweet_shorten_loop(s, url)
            && ends_with_link(tweet_shorten_loop(s, url), url)),
    decreases s.len(),
{
    if s.len() > 0 {
        let s1 = drop_word_spec(s);
        let c = link_candidate(s1, url);
        lemma_drop_word_strict(s);
        lemma_trim_props(tail_word_removed(s));
        if tweet_weight_of(c) <= 240 {
            lemma_candidate_trim(s1, url);
            lemma_candidate_link(s1, url);
        } else {
            lemma_tweet_loop_result(s1, url);
        }
    }
}

/// A candidate built with a link ends with that link.
proof fn lemma_candidate_link(s1: Seq<char>, url: Option<Seq<char>>)
    ensures
        ends_with_link(link_candidate(s1, url), url),
{
    match url {
        Option::None => {},
        Option::Some(l) => {
            let c = s1 + "\u{2026} "@ + l;
            reveal_strlit("\u{2026} ");
            assert(c.skip(c.len() - l.len() - 2) =~= "\u{2026} "@ + l);
        },
    }
}

/// A candidate built from a trimmed text and a well-formed link trims to
/// itself.
proof fn lemma_candidate_trim(s1: Seq<char>, url: Option<Seq<char>>)
    requires
        trim_spec(s1) == s1,
        link_ok(url),
    ensures
        trim_spec(link_candidate(s1, url)) == link_candidate(s1, url),
{
    lemma_trim_props(s1);
    match url {
        Option::None => {},
        Option::Some(l) => {
            let c = s1 + "\u{2026} "@ + l;
            reveal_strlit("\u{2026} ");
            assert(c.last() == l.last());
            if s1.len() > 0 {
                assert(c[0] == s1[0]);
            } else {
                assert(c[0] == '\u{2026}');
            }
            lemma_trim_noop(c);
        },
    }
}

/// Shortening is idempotent: applying the shortener to its own result, with
/// the same link, changes nothing.
pub proof fn lemma_shorten_idempotent(text: Seq<char>, url: Option<Seq<char>>)
    requires
        link_ok(url),
    ensures
        tweet_shorten_spec(tweet_shorten_spec(text, url), url) == tweet_shorten_spec(text, url),
{
    let s0 = trim_spec(text);
    lemma_trim_props(text);
    if tweet_weight_of(s0) <= 240 {
    } else {
        let r = tweet_shorten_loop(s0, url);
        lemma_tweet_loop_result(s0, url);
        if r == Seq::<char>::empty() {
            assert(trim_spec(r) == r) by {
                lemma_trim_noop(r);
            }
        } else {
            lemma_trim_props(r);
        }
    }
}

/// Shortens a text to the 240-character weighted budget of the microblogging
/// platform, appending the given link to the full original when words had to
/// go.
pub fn tweet_shorten(text: &str, toot_url: &Option<String>) -> (r: String)
    ensures
        r@ == tweet_shorten_spec(text@, opt_str_view(*toot_url)),
        tweet_weight_of(r@) <= 240,
        link_ok(opt_str_view(*toot_url)) ==> tweet_shorten_spec(r@, opt_str_view(*toot_url)) == r@,
        link_ok(opt_str_view(*toot_url)) && tweet_weight_of(trim_spec(text@)) > 240 ==> (r@
            == Seq::<char>::empty() || ends_with_link(r@, opt_str_view(*toot_url))),
{
    let ghost u = opt_str_view(*toot_url);
    proof {
        if link_ok(u) {
            lemma_shorten_idempotent(text@, u);
            lemma_tweet_loop_result(trim_spec(text@), u);
        }
    }
    let chars = str_chars(text);
    let mut s = trim_chars(&chars);
    proof {
        lemma_trim_props(chars@);
    }
    let w0: usize = tweet_weight(&s);
    if w0 <= 240 {
        return chars_string(&s);
    }
    while s.len() > 0
        invariant
            u == opt_str_view(*toot_url),
            trim_spec(s@) == s@,
            tweet_shorten_loop(s@, u) == tweet_shorten_spec(text@, u),
            link_ok(u) ==> tweet_shorten_spec(tweet_shorten_spec(text@, u), u)
                == tweet_shorten_spec(text@, u),
            link_ok(u) && tweet_weight_of(trim_spec(text@)) > 240 ==> (tweet_shorten_spec(text@, u)
                == Seq::<char>::empty() || ends_with_link(tweet_shorten_spec(text@, u), u)),
        decreases s@.len(),
    {
        let s1 = drop_last_word(&s);
        proof {
            lemma_trim_props(tail_word_removed(s@));
            lemma_drop_word_strict(s@);
        }
        let mut c: Vec<char> = Vec::new();
        push_all(&mut c, &s1);
        match toot_url {
            Option::Some(l) => {
                let ell = str_chars("\u{2026} ");
                push_all(&mut c, &ell);
                let lc = str_chars(l.as_str());
                push_all(&mut c, &lc);
            },
            Option::None => {},
        }
        proof {
            assert(c@ =~= link_candidate(s1@, u));
        }
        let w: usize = tweet_weight(&c);
        if w <= 240 {
            return chars_string(&c);
        }
        s = s1;
    }
    let done: Vec<char> = Vec::new();
    let _wz: usize = tweet_weight(&done);
    chars_string(&done)
}

#[via_fn]
proof fn toot_shorten_loop_decreases(s: Seq<char>, link: Seq<char>) {
    if s.len() > 0 {
        lemma_drop_word_strict(s);
    }
}

/// The word-trimming loop for the grapheme-counting platform, with its hard
/// budget of 500; an exhausted text gives up with the empty text.
pub open spec fn toot_shorten_loop(s: Seq<char>, link: Seq<char>) -> Seq<char>
    decreases s.len(),
    via toot_shorten_loop_decreases
{
    if s.len() == 0 {
        Seq::empty()
    } else {
        let s1 = drop_word_spec(s);
        let c = s1 + "\u{2026} "@ + link;
        if grapheme_tally(c) <= 500 {
            c
        } else {
            toot_shorten_loop(s1, link)
        }
    }
}

/// The link back to the full original post on the microblogging platform.
pub open spec fn tweet_link_spec(id: u64) -> Seq<char> {
    "https://twitter.com/twitter/status/"@ + dec_str_spec(id as nat)
}

/// What shortening a text for the grapheme-counting platform returns.
pub open spec fn toot_shorten_spec(text: Seq<char>, id: u64) -> Seq<char> {
    let s0 = trim_spec(text);
    if grapheme_tally(s0) <= 500 {
        s0
    } else {
        toot_shorten_loop(s0, tweet_link_spec(id))
    }
}

/// Shortens a text to the 500-grapheme budget of the federated platform,
/// appending a link back to the original post when words had to go.
pub fn toot_shorten(text: &Vec<char>, tweet_id: u64) -> (r: Vec<char>)
    ensures
        r@ == toot_shorten_spec(text@, tweet_id),
        grapheme_tally(r@) <= 500,
{
    let mut s = trim_chars(text);
    proof {
        lemma_trim_props(text@);
    }
    let t0: usize = grapheme_count(&s);
    if t0 <= 500 {
        return s;
    }
    let link = tweet_link(tweet_id);
    while s.len() > 0
        invariant
            trim_spec(s@) == s@,
            link@ == tweet_link_spec(tweet_id),
            toot_shorten_loop(s@, link@) == toot_shorten_spec(text@, tweet_id),
        decreases s@.len(),
    {
        let s1 = drop_last_word(&s);
        proof {
            lemma_trim_props(tail_word_removed(s@));
            lemma_drop_word_strict(s@);
        }
        let mut c: Vec<char> = Vec::new();
        push_all(&mut c, &s1);
        let ell = str_chars("\u{2026} ");
        push_all(&mut c, &ell);
        push_all(&mut c, &link);
        let t: usize = grapheme_count(&c);
        if t <= 500 {
            return c;
        }
        s = s1;
    }
    let done: Vec<char> = Vec::new();
    let _tz: usize = grapheme_count(&done);
    done
}

/// Builds the link back to the full original post.
pub fn tweet_link(id: u64) -> (r: Vec<char>)
    ensures
        r@ == tweet_link_spec(id),
{
    let mut out = str_chars("https://twitter.com/twitter/status/");
    let digits = u64_chars(id);
    push_all(&mut out, &digits);
    out
}

} // verus!
