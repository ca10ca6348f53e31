//! Attachment resolution: the direct download links and alt texts of a
//! status's media, reaching into retweets, quotes and boosts when the status
//! itself carries none, and preferring the highest-bitrate video rendition.

use vstd::prelude::*;

use crate::canonical::opt_media_seq;
use crate::model::{MediaEntity, Status, StatusAttachment, Tweet, VideoVariant};
use crate::plan::{MediaV, NewMedia};
use crate::shorten::opt_str_view;
use crate::textops::{chars_string, str_chars};

verus! {

/// The ghost images of a list of planned attachments.
pub open spec fn media_views(s: Seq<NewMedia>) -> Seq<MediaV> {
    Seq::new(s.len(), |i: int| s[i]@)
}

/// An alt text cut to a maximum number of characters.
pub open spec fn truncated_alt(o: Option<Seq<char>>, max: int) -> Option<Seq<char>> {
    match o {
        Option::None => Option::None,
        Option::Some(s) => Option::Some(
            if s.len() <= max {
                s
            } else {
                s.take(max)
            },
        ),
    }
}

/// Truncates a string to a maximum number of characters, when one is there.
pub fn truncate_option_string(stringy: Option<String>, max_chars: usize) -> (r: Option<String>)
    ensures
        opt_str_view(r) == truncated_alt(opt_str_view(stringy), max_chars as int),
{
    match stringy {
        Option::None => Option::None,
        Option::Some(s) => {
            let cv = str_chars(s.as_str());
            if cv.len() <= max_chars {
                Option::Some(s)
            } else {
                let mut head: Vec<char> = Vec::new();
                let mut i: usize = 0;
                while i < max_chars
                    invariant
                        i <= max_chars,
                        max_chars < cv@.len(),
                        cv@ == s@,
                        head@ =~= cv@.take(i as int),
                    decreases max_chars - i,
                {
                    head.push(cv[i]);
                    i += 1;
                }
                Option::Some(chars_string(&head))
            }
        },
    }
}

/// The link of the best video rendition seen so far: a variant with a higher
/// bitrate than every one before it takes over.
pub open spec fn best_variant(vars: Seq<VideoVariant>, rate: u64, url: Seq<char>) -> Seq<char>
    decreases vars.len(),
{
    if vars.len() == 0 {
        url
    } else {
        match vars[0].bitrate {
            Option::Some(b) => if b > rate {
                best_variant(vars.drop_first(), b, vars[0].url@)
            } else {
                best_variant(vars.drop_first(), rate, url)
            },
            Option::None => best_variant(vars.drop_first(), rate, url),
        }
    }
}

/// The planned attachment for one media entry: videos point at their best
/// rendition, pictures at their direct link.
pub open spec fn media_entry_v(m: MediaEntity) -> MediaV {
    match m.video_info {
        Option::Some(vars) => MediaV {
            url: best_variant(vars@, 0, Seq::empty()),
            alt: opt_str_view(m.ext_alt_text),
        },
        Option::None => MediaV { url: m.media_url_https@, alt: opt_str_view(m.ext_alt_text) },
    }
}

/// Where a tweet's attachments come from: the tweet itself, else its
/// retweeted status, else its quoted status.
pub open spec fn tweet_media_source(t: Tweet) -> Seq<MediaEntity> {
    match t.media {
        Option::Some(mv) => mv@,
        Option::None => match t.retweeted_status {
            Option::Some(rt) => opt_media_seq(rt.media),
            Option::None => match t.quoted_status {
                Option::Some(q) => opt_media_seq(q.media),
                Option::None => Seq::empty(),
            },
        },
    }
}

/// The planned attachments of a tweet.
pub open spec fn tweet_attachments_spec(t: Tweet) -> Seq<MediaV> {
    Seq::new(tweet_media_source(t).len(), |i: int| media_entry_v(tweet_media_source(t)[i]))
}

/// Returns the direct download links and alt texts of a tweet's attachments.
pub fn tweet_get_attachments(tweet: &Tweet) -> (r: Vec<NewMedia>)
    ensures
        media_views(r@) == tweet_attachments_spec(*tweet),
{
    let empty_media: Vec<MediaEntity> = Vec::new();
    let src: &Vec<MediaEntity> = match &tweet.media {
        Option::Some(mv) => mv,
        Option::None => match &tweet.retweeted_status {
            Option::Some(rt) => match &rt.media {
                Option::Some(mv) => mv,
                Option::None => &empty_media,
            },
            Option::None => match &tweet.quoted_status {
                Option::Some(q) => match &q.media {
                    Option::Some(mv) => mv,
                    Option::None => &empty_media,
                },
                Option::None => &empty_media,
            },
        },
    };
    proof {
        assert(src@ =~= tweet_media_source(*tweet));
    }
    let mut links: Vec<NewMedia> = Vec::new();
    let n: usize = src.len();
    let mut i: usize = 0;
    while i < n
        invariant
            i <= n,
            n == src@.len(),
            src@ == tweet_media_source(*tweet),
            links@.len() == i,
            media_views(links@) =~= tweet_attachments_spec(*tweet).take(i as int),
        decreases n - i,
    {
        let m = &src[i];
        let alt: Option<String> = match &m.ext_alt_text {
            Option::Some(s) => Option::Some(s.clone()),
            Option::None => Option::None,
        };
        let entry: NewMedia;
        match &m.video_info {
            Option::Some(vars) => {
                let mut best_rate: u64 = 0;
                let mut best_url: Vec<char> = Vec::new();
                let k: usize = vars.len();
                let mut j: usize = 0;
                proof {
                    assert(vars@.skip(0) =~= vars@);
                    assert(best_url@ =~= Seq::<char>::empty());
                }
                while j < k
                    invariant
                        j <= k,
                        k == vars@.len(),
                        best_variant(vars@.skip(j as int), best_rate, best_url@) == best_variant(
                            vars@,
                            0,
                            Seq::empty(),
                        ),
                    decreases k - j,
                {
                    proof {
                        assert(vars@.skip(j as int)[0] == vars@[j as int]);
                        assert(vars@.skip(j as int).drop_first() =~= vars@.skip(j + 1));
                    }
                    match &vars[j].bitrate {
                        Option::Some(b) => {
                            if *b > best_rate {
                                best_rate = *b;
                                best_url = str_chars(vars[j].url.as_str());
                            }
                        },
                        Option::None => {},
                    }
                    j += 1;
                }
                proof {
                    assert(vars@.skip(k as int) =~= Seq::<VideoVariant>::empty());
                }
                entry = NewMedia { attachment_url: chars_string(&best_url), alt_text: alt };
            },
            Option::None => {
                entry = NewMedia {
                    attachment_url: chars_string(&str_chars(m.media_url_https.as_str())),
                    alt_text: alt,
                };
            },
        }
        proof {
            assert(entry@ == media_entry_v(src@[i as int]));
            assert(entry@ == tweet_attachments_spec(*tweet)[i as int]);
        }
        let ghost links_prev = links@;
        links.push(entry);
        proof {
            assert(links@ == links_prev.push(entry));
            assert(media_views(links@).len() == i + 1);
            assert forall|k: int| 0 <= k < i + 1 implies media_views(links@)[k]
                == tweet_attachments_spec(*tweet).take(i + 1)[k] by {
                if k < i {
                    assert(media_views(links_prev)[k] == tweet_attachments_spec(*tweet).take(
                        i as int,
                    )[k]);
                    assert(links@[k] == links_prev[k]);
                }
            }
        }
        proof {
            assert(media_views(links@) =~= tweet_attachments_spec(*tweet).take(i + 1));
        }
        i += 1;
    }
    proof {
        assert(tweet_attachments_spec(*tweet).take(n as int) =~= tweet_attachments_spec(*tweet));
    }
    links
}

/// Where a toot's attachments come from: its own, else its boost's.
pub open spec fn toot_media_source(s: Status) -> Seq<StatusAttachment> {
    if s.media_attachments@.len() == 0 {
        match s.reblog {
            Option::Some(b) => b.media_attachments@,
            Option::None => s.media_attachments@,
        }
    } else {
        s.media_attachments@
    }
}

/// The planned attachments of a toot; alt texts are cut to the 1000
/// characters the other platform allows.
pub open spec fn toot_attachments_spec(s: Status) -> Seq<MediaV> {
    Seq::new(
        toot_media_source(s).len(),
        |i: int| MediaV {
            url: toot_media_source(s)[i].url@,
            alt: truncated_alt(opt_str_view(toot_media_source(s)[i].description), 1000),
        },
    )
}

/// Returns the direct download links and alt texts of a toot's attachments.
pub fn toot_get_attachments(toot: &Status) -> (r: Vec<NewMedia>)
    ensures
        media_views(r@) == toot_attachments_spec(*toot),
{
    let src: &Vec<StatusAttachment> = if toot.media_attachments.len() == 0 {
        match &toot.reblog {
            Option::Some(b) => &b.media_attachments,
            Option::None => &toot.media_attachments,
        }
    } else {
        &toot.media_attachments
    };
    proof {
        assert(src@ =~= toot_media_source(*toot));
    }
    let mut links: Vec<NewMedia> = Vec::new();
    let n: usize = src.len();
    let mut i: usize = 0;
    while i < n
        invariant
            i <= n,
            n == src@.len(),
            src@ == toot_media_source(*toot),
            links@.len() == i,
            media_views(links@) =~= toot_attachments_spec(*toot).take(i as int),
        decreases n - i,
    {
        let a = &src[i];
        let alt_in: Option<String> = match &a.description {
            Option::Some(s) => Option::Some(s.clone()),
            Option::None => Option::None,
        };
        let entry = NewMedia {
            attachment_url: chars_string(&str_chars(a.url.as_str())),
            alt_text: truncate_option_string(alt_in, 1000),
        };
        let ghost links_prev = links@;
        links.push(entry);
        proof {
            assert(links@ == links_prev.push(entry));
            assert forall|k: int| 0 <= k < i + 1 implies media_views(links@)[k]
                == toot_attachments_spec(*toot).take(i + 1)[k] by {
                if k < i {
                    assert(media_views(links_prev)[k] == toot_attachments_spec(*toot).take(
                        i as int,
                    )[k]);
                    assert(links@[k] == links_prev[k]);
                }
            }
        }
        proof {
            assert(media_views(links@) =~= toot_attachments_spec(*toot).take(i + 1));
        }
        i += 1;
    }
    proof {
        assert(toot_attachments_spec(*toot).take(n as int) =~= toot_attachments_spec(*toot));
    }
    links
}

} // verus!
