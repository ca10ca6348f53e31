//! Text canonicalization: turns a platform-native status (HTML-bearing,
//! link-shortened, entity-encoded) into the plain text that is compared and
//! posted. Boosts get an `RT` prefix, quoted posts are inlined one level
//! deep, attachment links go, shortened links are expanded, mentions are
//! escaped, and entities are decoded.

use vstd::prelude::*;

use crate::model::{
    opt_tweet_size, opt_tweet_wf, tweet_size, tweet_wf, MediaEntity, Status, Tweet, TweetUser,
    UrlEntity,
};
use crate::shorten::{toot_shorten, toot_shorten_spec};
use crate::text::{
    dec_str_spec, push_all, remove_all, replace_all, replace_all_spec, seq_eq, trim_chars,
    trim_spec, u64_chars,
};
use crate::textops::{
    chars_string, decode_entities_chars, html_decoded, str_chars, strip_tags_chars, tags_stripped,
};

verus! {

/// Mentions escaped so that reposting never pings an unrelated account: a
/// marker goes in after each `@`, and an already doubled marker collapses.
pub open spec fn mention_escaped(s: Seq<char>) -> Seq<char> {
    replace_all_spec(replace_all_spec(s, " @"@, " @\\"@), " @\\\\"@, " @\\"@)
}

/// Applies the mention escape to a text.
pub fn escape_mentions(v: &Vec<char>) -> (r: Vec<char>)
    ensures
        r@ == mention_escaped(v@),
{
    let p1 = str_chars(" @");
    let t1 = str_chars(" @\\");
    let p2 = str_chars(" @\\\\");
    let x = replace_all(v, &p1, &t1);
    replace_all(&x, &p2, &t1)
}

/// The raw text of a status: its own content, or the boosted content behind
/// an `RT author:` prefix.
pub open spec fn toot_raw_text(toot: Status) -> Seq<char> {
    match toot.reblog {
        Option::None => toot.content@,
        Option::Some(r) => "RT "@ + r.account.acct@ + ": "@ + r.content@,
    }
}

/// Line-break markup normalized to plain line breaks, paragraph markup to
/// blank lines.
pub open spec fn br_normalized(s: Seq<char>) -> Seq<char> {
    let x1 = replace_all_spec(s, "<br />"@, "\n"@);
    let x2 = replace_all_spec(x1, "<br>"@, "\n"@);
    let x3 = replace_all_spec(x2, "</p><p>"@, "\n\n"@);
    let x4 = replace_all_spec(x3, "<p>"@, Seq::<char>::empty());
    replace_all_spec(x4, "</p>"@, Seq::<char>::empty())
}

/// The canonical text of a status on the federated platform.
pub open spec fn toot_text_spec(toot: Status) -> Seq<char> {
    html_decoded(mention_escaped(tags_stripped(br_normalized(toot_raw_text(toot)))))
}

/// Prefixes boosts with their author, strips markup, escapes mentions and
/// decodes entities.
pub fn mastodon_toot_get_text(toot: &Status) -> (r: String)
    ensures
        r@ == toot_text_spec(*toot),
{
    let mut raw: Vec<char>;
    match &toot.reblog {
        Option::Some(rb) => {
            raw = str_chars("RT ");
            let acct = str_chars(rb.account.acct.as_str());
            push_all(&mut raw, &acct);
            let sep = str_chars(": ");
            push_all(&mut raw, &sep);
            let content = str_chars(rb.content.as_str());
            push_all(&mut raw, &content);
            proof {
                assert(raw@ =~= toot_raw_text(*toot));
            }
        },
        Option::None => {
            raw = str_chars(toot.content.as_str());
        },
    }
    let x1 = replace_all(&raw, &str_chars("<br />"), &str_chars("\n"));
    let x2 = replace_all(&x1, &str_chars("<br>"), &str_chars("\n"));
    let x3 = replace_all(&x2, &str_chars("</p><p>"), &str_chars("\n\n"));
    let x4 = remove_all(&x3, &str_chars("<p>"));
    let x5 = remove_all(&x4, &str_chars("</p>"));
    let x6 = strip_tags_chars(&x5);
    let x7 = escape_mentions(&x6);
    let x8 = decode_entities_chars(&x7);
    chars_string(&x8)
}

/// The screen name of a tweet's author; empty when the author is missing.
pub open spec fn user_name_of(u: Option<TweetUser>) -> Seq<char> {
    match u {
        Option::Some(us) => us.screen_name@,
        Option::None => Seq::empty(),
    }
}

/// The attachments behind an optional media block.
pub open spec fn opt_media_seq(m: Option<Vec<MediaEntity>>) -> Seq<MediaEntity> {
    match m {
        Option::Some(v) => v@,
        Option::None => Seq::empty(),
    }
}

/// The text with every attachment's display link removed.
pub open spec fn media_urls_removed(s: Seq<char>, media: Seq<MediaEntity>) -> Seq<char>
    decreases media.len(),
{
    if media.len() == 0 {
        s
    } else {
        media_urls_removed(replace_all_spec(s, media[0].url@, Seq::<char>::empty()), media.drop_first())
    }
}

/// One link expansion: the shortened link replaced by its expanded target.
pub open spec fn url_replaced(s: Seq<char>, u: UrlEntity) -> Seq<char> {
    match u.expanded_url {
        Option::Some(e) => replace_all_spec(s, u.url@, e@),
        Option::None => s,
    }
}

/// The text with every shortened link replaced by its expanded target.
pub open spec fn urls_expanded(s: Seq<char>, urls: Seq<UrlEntity>) -> Seq<char>
    decreases urls.len(),
{
    if urls.len() == 0 {
        s
    } else {
        urls_expanded(url_replaced(s, urls[0]), urls.drop_first())
    }
}

/// The desktop and mobile forms of the link to a quoted post.
pub open spec fn quote_link_spec(base: Seq<char>, sn: Seq<char>, id: u64) -> Seq<char> {
    base + sn + "/status/"@ + dec_str_spec(id as nat)
}

/// The text with the link to the quoted post removed: any link whose
/// expanded target is the quoted post's address goes, and the text is
/// trimmed after each removal.
pub open spec fn quote_link_removed(
    s: Seq<char>,
    urls: Seq<UrlEntity>,
    link1: Seq<char>,
    link2: Seq<char>,
) -> Seq<char>
    decreases urls.len(),
{
    if urls.len() == 0 {
        s
    } else {
        let u = urls[0];
        let s2 = match u.expanded_url {
            Option::Some(e) => if e@ == link1 || e@ == link2 {
                trim_spec(replace_all_spec(s, u.url@, Seq::<char>::empty()))
            } else {
                s
            },
            Option::None => s,
        };
        quote_link_removed(s2, urls.drop_first(), link1, link2)
    }
}

/// The text with the quoted post inlined: the quote link removed and the
/// quoted post's canonical text appended behind a `QT author:` marker. The
/// quoted post itself is processed quote-free, which bounds the nesting to
/// one level.
pub open spec fn quote_merged_spec(
    text: Seq<char>,
    quoted: Option<Box<Tweet>>,
    urls: Seq<UrlEntity>,
) -> Seq<char>
    decreases opt_tweet_size(quoted) + 1, 0int,
{
    match quoted {
        Option::None => text,
        Option::Some(q) => {
            let sn = user_name_of(q.user);
            let link1 = quote_link_spec("https://twitter.com/"@, sn, q.id);
            let link2 = quote_link_spec("https://mobile.twitter.com/"@, sn, q.id);
            let cleaned = quote_link_removed(text, urls, link1, link2);
            cleaned + "\n\nQT "@ + sn + ": "@ + tweet_text_spec(*q, false)
        },
    }
}

#[via_fn]
proof fn tweet_text_spec_decreases(t: Tweet, include_quote: bool) {
    match t.retweeted_status {
        Option::Some(rt) => {
            assert(opt_tweet_size(t.retweeted_status) == tweet_size(*rt));
            assert(tweet_size(*rt) == 1 + opt_tweet_size(rt.retweeted_status) + opt_tweet_size(
                rt.quoted_status,
            ));
        },
        Option::None => {},
    }
}

/// The canonical text of a tweet: a retweet's content behind an `RT author:`
/// prefix, attachment links removed, the quoted post inlined when
/// `include_quote` holds, links expanded, mentions escaped, entities decoded,
/// and the result fitted to the federated platform's budget.
pub open spec fn tweet_text_spec(t: Tweet, include_quote: bool) -> Seq<char>
    decreases tweet_size(t), 3int,
    via tweet_text_spec_decreases
{
    let base = match t.retweeted_status {
        Option::Some(rt) => "RT "@ + user_name_of(rt.user) + ": "@ + quote_merged_spec(
            rt.text@,
            rt.quoted_status,
            rt.urls@,
        ),
        Option::None => t.text@,
    };
    let urls = match t.retweeted_status {
        Option::Some(rt) => rt.urls@,
        Option::None => t.urls@,
    };
    let media = match t.retweeted_status {
        Option::Some(rt) => opt_media_seq(rt.media),
        Option::None => opt_media_seq(t.media),
    };
    let x1 = media_urls_removed(base, media);
    let x2 = trim_spec(x1);
    let x3 = if include_quote {
        quote_merged_spec(x2, t.quoted_status, urls)
    } else {
        x2
    };
    let x4 = urls_expanded(x3, urls);
    let x5 = mention_escaped(x4);
    let x6 = html_decoded(x5);
    toot_shorten_spec(x6, t.id)
}

/// Replaces shortened links, removes attachment links, inlines quotes,
/// prefixes retweets, escapes mentions and decodes entities.
pub fn tweet_unshorten_decode(tweet: &Tweet) -> (r: String)
    requires
        tweet_wf(*tweet),
    ensures
        r@ == tweet_text_spec(*tweet, true),
{
    let chars = canonical_tweet_chars(tweet, true);
    chars_string(&chars)
}

/// The canonical text of a tweet, as characters.
fn canonical_tweet_chars(t: &Tweet, include_quote: bool) -> (r: Vec<char>)
    requires
        tweet_wf(*t),
    ensures
        r@ == tweet_text_spec(*t, include_quote),
    decreases tweet_size(*t), 3int,
{
    let mut base: Vec<char>;
    let urls_ref: &Vec<UrlEntity>;
    let media_ref: &Option<Vec<MediaEntity>>;
    match &t.retweeted_status {
        Option::Some(rt) => {
            base = str_chars("RT ");
            let name = str_chars(rt.user.as_ref().unwrap().screen_name.as_str());
            push_all(&mut base, &name);
            let sep = str_chars(": ");
            push_all(&mut base, &sep);
            let rt_text = str_chars(rt.text.as_str());
            proof {
                assert(opt_tweet_size(t.retweeted_status) == tweet_size(**rt));
                assert(tweet_size(**rt) == 1 + opt_tweet_size(rt.retweeted_status)
                    + opt_tweet_size(rt.quoted_status));
                assert(opt_tweet_wf(t.retweeted_status));
                assert(tweet_wf(**rt));
            }
            let inner = quote_merged_chars(rt_text, &rt.quoted_status, &rt.urls);
            push_all(&mut base, &inner);
            urls_ref = &rt.urls;
            media_ref = &rt.media;
            proof {
                assert(base@ =~= "RT "@ + user_name_of(rt.user) + ": "@ + quote_merged_spec(
                    rt.text@,
                    rt.quoted_status,
                    rt.urls@,
                ));
            }
        },
        Option::None => {
            base = str_chars(t.text.as_str());
            urls_ref = &t.urls;
            media_ref = &t.media;
        },
    }
    let ghost media_seq = opt_media_seq(*media_ref);
    let ghost base_view = base@;
    let mut cur = base;
    match media_ref {
        Option::Some(mv) => {
            let n: usize = mv.len();
            let mut i: usize = 0;
            proof {
                assert(media_seq.skip(0) =~= media_seq);
            }
            while i < n
                invariant
                    i <= n,
                    n == mv@.len(),
                    media_seq == mv@,
                    media_urls_removed(cur@, media_seq.skip(i as int)) == media_urls_removed(
                        base_view,
                        media_seq,
                    ),
                decreases n - i,
            {
                let pat = str_chars(mv[i].url.as_str());
                proof {
                    assert(media_seq.skip(i as int)[0] == mv@[i as int]);
                    assert(media_seq.skip(i as int).drop_first() =~= media_seq.skip(i + 1));
                }
                cur = remove_all(&cur, &pat);
                i += 1;
            }
            proof {
                assert(media_seq.skip(n as int) =~= Seq::<MediaEntity>::empty());
            }
        },
        Option::None => {
            proof {
                assert(media_seq =~= Seq::<MediaEntity>::empty());
            }
        },
    }
    proof {
        assert(cur@ == media_urls_removed(base_view, media_seq));
    }
    let x2 = trim_chars(&cur);
    let x3 = if include_quote {
        quote_merged_chars(x2, &t.quoted_status, urls_ref)
    } else {
        x2
    };
    let x4 = expand_urls(x3, urls_ref);
    let x5 = escape_mentions(&x4);
    let x6 = decode_entities_chars(&x5);
    toot_shorten(&x6, t.id)
}

/// The text with every shortened link replaced by its expanded target.
fn expand_urls(text: Vec<char>, urls: &Vec<UrlEntity>) -> (r: Vec<char>)
    ensures
        r@ == urls_expanded(text@, urls@),
{
    let n: usize = urls.len();
    let mut cur = text;
    let ghost orig = cur@;
    let mut i: usize = 0;
    proof {
        assert(urls@.skip(0) =~= urls@);
    }
    while i < n
        invariant
            i <= n,
            n == urls@.len(),
            urls_expanded(cur@, urls@.skip(i as int)) == urls_expanded(orig, urls@),
        decreases n - i,
    {
        proof {
            assert(urls@.skip(i as int)[0] == urls@[i as int]);
            assert(urls@.skip(i as int).drop_first() =~= urls@.skip(i + 1));
        }
        match &urls[i].expanded_url {
            Option::Some(e) => {
                let pat = str_chars(urls[i].url.as_str());
                let rep = str_chars(e.as_str());
                cur = replace_all(&cur, &pat, &rep);
            },
            Option::None => {},
        }
        i += 1;
    }
    proof {
        assert(urls@.skip(n as int) =~= Seq::<UrlEntity>::empty());
    }
    cur
}

/// Inlines the quoted post: removes the quote link and appends the quoted
/// post's canonical text behind a `QT author:` marker.
fn quote_merged_chars(text: Vec<char>, quoted: &Option<Box<Tweet>>, urls: &Vec<UrlEntity>) -> (r:
    Vec<char>)
    requires
        opt_tweet_wf(*quoted),
    ensures
        r@ == quote_merged_spec(text@, *quoted, urls@),
    decreases opt_tweet_size(*quoted) + 1, 0int,
{
    match quoted {
        Option::None => text,
        Option::Some(q) => {
            let sn = str_chars(q.user.as_ref().unwrap().screen_name.as_str());
            let digits = u64_chars(q.id);
            let status_part = str_chars("/status/");
            let mut link1 = str_chars("https://twitter.com/");
            push_all(&mut link1, &sn);
            push_all(&mut link1, &status_part);
            push_all(&mut link1, &digits);
            let mut link2 = str_chars("https://mobile.twitter.com/");
            push_all(&mut link2, &sn);
            push_all(&mut link2, &status_part);
            push_all(&mut link2, &digits);
            proof {
                assert(link1@ =~= quote_link_spec("https://twitter.com/"@, sn@, q.id));
                assert(link2@ =~= quote_link_spec("https://mobile.twitter.com/"@, sn@, q.id));
            }
            let ghost orig = text@;
            let mut cur = text;
            let n: usize = urls.len();
            let mut i: usize = 0;
            proof {
                assert(urls@.skip(0) =~= urls@);
            }
            while i < n
                invariant
                    i <= n,
                    n == urls@.len(),
                    link1@ == quote_link_spec("https://twitter.com/"@, sn@, q.id),
                    link2@ == quote_link_spec("https://mobile.twitter.com/"@, sn@, q.id),
                    quote_link_removed(cur@, urls@.skip(i as int), link1@, link2@)
                        == quote_link_removed(orig, urls@, link1@, link2@),
                decreases n - i,
            {
                proof {
                    assert(urls@.skip(i as int)[0] == urls@[i as int]);
                    assert(urls@.skip(i as int).drop_first() =~= urls@.skip(i + 1));
                }
                match &urls[i].expanded_url {
                    Option::Some(e) => {
                        let echars = str_chars(e.as_str());
                        if seq_eq(&echars, &link1) || seq_eq(&echars, &link2) {
                            let pat = str_chars(urls[i].url.as_str());
                            let repl = remove_all(&cur, &pat);
                            cur = trim_chars(&repl);
                        }
                    },
                    Option::None => {},
                }
                i += 1;
            }
            proof {
                assert(urls@.skip(n as int) =~= Seq::<UrlEntity>::empty());
            }
            let original_text = canonical_tweet_chars(q, false);
            let marker = str_chars("\n\nQT ");
            push_all(&mut cur, &marker);
            push_all(&mut cur, &sn);
            let sep = str_chars(": ");
            push_all(&mut cur, &sep);
            push_all(&mut cur, &original_text);
            proof {
                assert(cur@ =~= quote_link_removed(orig, urls@, link1@, link2@) + "\n\nQT "@ + sn@
                    + ": "@ + tweet_text_spec(**q, false));
            }
            cur
        },
    }
}

} // verus!
