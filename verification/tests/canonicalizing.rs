use mastodon_twitter_sync::compare::{toot_and_tweet_are_equal, unify_post_content};
use mastodon_twitter_sync::model::{Status, StatusAccount, Tweet, UrlEntity};
use mastodon_twitter_sync::plan::SyncOptions;
use mastodon_twitter_sync::shorten::tweet_shorten;
use mastodon_twitter_sync::sync::determine_posts;

fn default_options() -> SyncOptions {
    SyncOptions {
        sync_reblogs: true,
        sync_retweets: true,
        sync_hashtag_twitter: None,
        sync_hashtag_mastodon: None,
    }
}

fn get_mastodon_status() -> Status {
    Status {
        id: 123456,
        content: "".to_string(),
        url: Some("https://mastodon.social/@example/123456".to_string()),
        in_reply_to_id: None,
        account: StatusAccount { acct: "example".to_string() },
        reblog: None,
        media_attachments: Vec::new(),
    }
}

fn get_twitter_status() -> Tweet {
    Tweet {
        id: 123456,
        text: "".to_string(),
        user: None,
        in_reply_to_user_id: None,
        in_reply_to_status_id: None,
        retweeted: None,
        retweeted_status: None,
        quoted_status: None,
        urls: Vec::new(),
        media: None,
    }
}

// Test that Mastodon status text is posted HTML entity decoded to Twitter.
// &amp; => &
#[test]
fn mastodon_html_decode() {
    let mut status = get_mastodon_status();
    status.content = "<p>You &amp; me!</p>".to_string();
    let tweets: Vec<Tweet> = Vec::new();
    let posts = determine_posts(&vec![status], &tweets, &default_options());
    assert_eq!(posts.tweets[0].text, "You & me!");
}

#[test]
fn tests_mastodon_html_decode() {
    let mut status = get_mastodon_status();
    status.content = "<p>You &amp; me!</p>".to_string();
    let tweets: Vec<Tweet> = Vec::new();
    let posts = determine_posts(&vec![status], &tweets, &default_options());
    assert_eq!(posts.tweets[0].text, "You & me!");
}

// Test that Twitter status text is posted HTML entity decoded to Mastodon.
// &amp; => &
#[test]
fn twitter_html_decode() {
    let mut status = get_twitter_status();
    status.text = "You &amp; me!".to_string();
    let toots: Vec<Status> = Vec::new();
    let posts = determine_posts(&toots, &vec![status], &default_options());
    assert_eq!(posts.toots[0].text, "You & me!");
}

#[test]
fn tests_twitter_html_decode() {
    let mut status = get_twitter_status();
    status.text = "You &amp; me!".to_string();
    let toots: Vec<Status> = Vec::new();
    let posts = determine_posts(&toots, &vec![status], &default_options());
    assert_eq!(posts.toots[0].text, "You & me!");
}

// Test that a boost on Mastodon is prefixed with "RT username:" when posted
// to Twitter.
#[test]
fn mastodon_boost() {
    let mut reblog = get_mastodon_status();
    reblog.content = "<p>Some example toooot!</p>".to_string();
    let mut status = get_mastodon_status();
    status.reblog = Some(Box::new(reblog));

    let tweets: Vec<Tweet> = Vec::new();
    let posts = determine_posts(&vec![status], &tweets, &default_options());
    assert_eq!(posts.tweets[0].text, "RT example: Some example toooot!");
}

#[test]
fn tests_mastodon_boost() {
    let mut reblog = get_mastodon_status();
    reblog.content = "<p>Some example toooot!</p>".to_string();
    let mut status = get_mastodon_status();
    status.reblog = Some(Box::new(reblog));

    let tweets: Vec<Tweet> = Vec::new();
    let posts = determine_posts(&vec![status], &tweets, &default_options());
    assert_eq!(posts.tweets[0].text, "RT example: Some example toooot!");
}

// Test that the URL from the original toot is used in a long boost.
#[test]
fn mastodon_boost_url() {
    let mut reblog = get_mastodon_status();
    reblog.content = "longer than 280 characters longer than 280 characters longer than 280 characters longer than 280 characters longer than 280 characters longer than 280 characters longer than 280 characters longer than 280 characters longer than 280 characters".to_string();
    reblog.url = Some("https://example.com/a/b/c/5".to_string());
    let mut status = get_mastodon_status();
    status.reblog = Some(Box::new(reblog));

    let tweets: Vec<Tweet> = Vec::new();
    let posts = determine_posts(&vec![status], &tweets, &default_options());
    assert_eq!(posts.tweets[0].text, "RT example: longer than 280 characters longer than 280 characters longer than 280 characters longer than 280 characters longer than 280 characters longer than 280 characters longer than 280 characters longer than… https://example.com/a/b/c/5");
}

// Test that the old "RT @username" prefix is considered equal to "RT
// username:".
#[test]
fn old_rt_prefix() {
    let mut reblog = get_mastodon_status();
    reblog.content = "<p>Some example toooot!</p>".to_string();
    let mut status = get_mastodon_status();
    status.reblog = Some(Box::new(reblog));

    let mut tweet = get_twitter_status();
    tweet.text = "RT @example: Some example toooot!".to_string();

    let tweets = vec![tweet];
    let statuses = vec![status];
    let posts = determine_posts(&statuses, &tweets, &default_options());
    assert!(posts.toots.is_empty());
    assert!(posts.tweets.is_empty());
}

#[test]
fn tests_old_rt_prefix() {
    let mut reblog = get_mastodon_status();
    reblog.content = "<p>Some example toooot!</p>".to_string();
    let mut status = get_mastodon_status();
    status.reblog = Some(Box::new(reblog));

    let mut tweet = get_twitter_status();
    tweet.text = "RT @example: Some example toooot!".to_string();

    let tweets = vec![tweet];
    let statuses = vec![status];
    let posts = determine_posts(&statuses, &tweets, &default_options());
    assert!(posts.toots.is_empty());
    assert!(posts.tweets.is_empty());
}

// Test that the tweet/toot comparison is not case sensitive.
#[test]
fn case_insensitive() {
    let mut status = get_mastodon_status();
    status.content = "Casing different @Yes".to_string();
    let mut tweet = get_twitter_status();
    tweet.text = "casing Different @yes".to_string();
    assert!(toot_and_tweet_are_equal(&status, &tweet));

    let long_toot = "Test test test test test test test test test test test test test
        test test test test test test test test test test test test test
        test test test test test test test test test test test test test
        test test test test test test test test test test test test test
        test test test test";
    status.content = long_toot.to_string();
    tweet.text = tweet_shorten(long_toot, &status.url).to_lowercase();
    assert!(toot_and_tweet_are_equal(&status, &tweet));
}

// Test that @username mentions are escaped, because we don't want to mention
// completely unrelated users on the other network.
#[test]
fn mention_escaped() {
    let mut status = get_mastodon_status();
    status.content = "I will mention <span class=\"h-card\"><a href=\"https://example.com/@klausi\" class=\"u-url mention\">@<span>klausi</span></a></span> here".to_string();
    let mut tweet = get_twitter_status();
    tweet.text = "I will mention @\\klausi here".to_string();
    assert!(toot_and_tweet_are_equal(&status, &tweet));

    let tweets: Vec<Tweet> = Vec::new();
    let statuses = vec![status];
    let posts = determine_posts(&statuses, &tweets, &default_options());
    assert!(posts.toots.is_empty());
    assert_eq!(posts.tweets[0].text, "I will mention @\\klausi here");

    tweet.text = "I will mention @klausi here".to_string();
    let tweets = vec![tweet];
    let statuses: Vec<Status> = Vec::new();
    let posts = determine_posts(&statuses, &tweets, &default_options());
    assert!(posts.tweets.is_empty());
    assert_eq!(posts.toots[0].text, "I will mention @\\klausi here");
}

// Test that the old way of escaping with \@username is considered the same
// as @\username
#[test]
fn mention_old_escaped() {
    let mut status = get_mastodon_status();
    status.content = "I will mention <span class=\"h-card\"><a href=\"https://example.com/@klausi\" class=\"u-url mention\">@<span>klausi</span></a></span> here".to_string();
    let mut tweet = get_twitter_status();
    tweet.text = "I will mention \\@klausi here".to_string();
    assert!(toot_and_tweet_are_equal(&status, &tweet));

    let tweets = vec![tweet];
    let statuses = vec![status];
    let posts = determine_posts(&statuses, &tweets, &default_options());
    assert!(posts.toots.is_empty());
    assert!(posts.tweets.is_empty());

    let mut tweet = get_twitter_status();
    tweet.text = "I will mention @klausi here".to_string();
    let mut status = get_mastodon_status();
    status.content = "I will mention \\@klausi here".to_string();
    assert!(toot_and_tweet_are_equal(&status, &tweet));
    let tweets = vec![tweet];
    let statuses = vec![status];
    let posts = determine_posts(&statuses, &tweets, &default_options());
    assert!(posts.toots.is_empty());
    assert!(posts.tweets.is_empty());
}

// Test that toots starting with umlauts like Ö do not panic.
#[test]
fn umlaut_toot() {
    let mut status = get_mastodon_status();
    status.content = "Österreich".to_string();
    let tweets: Vec<Tweet> = Vec::new();
    let statuses = vec![status];
    let posts = determine_posts(&statuses, &tweets, &default_options());
    assert!(posts.toots.is_empty());
    assert_eq!(posts.tweets[0].text, "Österreich");
}

// Test that posting something looking like a URL/domain is considered
// equal coming back from Twitter.
#[test]
fn urls_in_posts() {
    let mut status = get_mastodon_status();
    status.content = "<p>What happened to the bofa.lol instance? <a href=\"https://mastodon.social/tags/mastodon\" class=\"mention hashtag\" rel=\"tag\">#<span>mastodon</span></a></p>".to_string();
    let mut tweet = get_twitter_status();
    tweet.text = "What happened to the https://t.co/OxEvHBajwd instance? #mastodon".to_string();
    tweet.urls = vec![UrlEntity {
        url: "https://t.co/OxEvHBajwd".to_string(),
        expanded_url: Some("http://bofa.lol".to_string()),
    }];

    assert!(toot_and_tweet_are_equal(&status, &tweet));
}

// The unified comparison does not depend on which platform supplied which
// text.
#[test]
fn unified_comparison_symmetric() {
    let a = unify_post_content("Casing different @Yes https://example.com".to_string());
    let b = unify_post_content("casing Different @yes example.com".to_string());
    assert_eq!(a == b, b == a);
    assert_eq!(a, b);
}
