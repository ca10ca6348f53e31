use mastodon_twitter_sync::model::{Status, StatusAccount, Tweet, TweetUser, UrlEntity};
use mastodon_twitter_sync::plan::SyncOptions;
use mastodon_twitter_sync::shorten::tweet_shorten;
use mastodon_twitter_sync::sync::determine_posts;

fn default_options() -> SyncOptions {
    SyncOptions {
        sync_reblogs: true,
        sync_retweets: true,
        sync_hashtag_twitter: None,
        sync_hashtag_mastodon: None,
    }
}

fn get_mastodon_status() -> Status {
    Status {
        id: 123456,
        content: "".to_string(),
        url: Some("https://mastodon.social/@example/123456".to_string()),
        in_reply_to_id: None,
        account: StatusAccount { acct: "example".to_string() },
        reblog: None,
        media_attachments: Vec::new(),
    }
}

fn get_twitter_status() -> Tweet {
    Tweet {
        id: 123456,
        text: "".to_string(),
        user: None,
        in_reply_to_user_id: None,
        in_reply_to_status_id: None,
        retweeted: None,
        retweeted_status: None,
        quoted_status: None,
        urls: Vec::new(),
        media: None,
    }
}

fn get_twitter_user() -> TweetUser {
    TweetUser { id: 1, screen_name: "test123".to_string() }
}

// Test that if a long Mastodon toot already exists as short version on
// Twitter that it is not posted again.
#[test]
fn short_version_on_twitter() {
    let mut status = get_mastodon_status();
    let long_toot = "test test test test test test test test test test test test test
        test test test test test test test test test test test test test
        test test test test test test test test test test test test test
        test test test test test test test test test test test test test
        test test test test";
    status.content = long_toot.to_string();

    let mut tweet = get_twitter_status();
    tweet.text = tweet_shorten(long_toot, &status.url);

    let tweets = vec![tweet];
    let statuses = vec![status];
    let posts = determine_posts(&statuses, &tweets, &default_options());
    assert!(posts.toots.is_empty());
    assert!(posts.tweets.is_empty());
}

#[test]
fn tests_short_version_on_twitter() {
    let mut status = get_mastodon_status();
    let long_toot = "test test test test test test test test test test test test test
        test test test test test test test test test test test test test
        test test test test test test test test test test test test test
        test test test test test test test test test test test test test
        test test test test";
    status.content = long_toot.to_string();

    let mut tweet = get_twitter_status();
    tweet.text = tweet_shorten(long_toot, &status.url);

    let tweets = vec![tweet];
    let statuses = vec![status];
    let posts = determine_posts(&statuses, &tweets, &default_options());
    assert!(posts.toots.is_empty());
    assert!(posts.tweets.is_empty());
}

// Test an over long post of 280 characters that is the exact same on both
// Mastodon and Twitter. No sync work necessary.
#[test]
fn over_long_status_on_both() {
    let mut status = get_mastodon_status();
    let long_toot = "test test test test test test test test test test test test test
        test test test test test test test test test test test test test
        test test test test test test test test test test test test test
        test test test test test test test test test test test test test
        test test test test";
    status.content = long_toot.to_string();

    let mut tweet = get_twitter_status();
    tweet.text = long_toot.to_string();

    let tweets = vec![tweet];
    let statuses = vec![status];
    let posts = determine_posts(&statuses, &tweets, &default_options());
    assert!(posts.toots.is_empty());
    assert!(posts.tweets.is_empty());
}

#[test]
fn tests_over_long_status_on_both() {
    let mut status = get_mastodon_status();
    let long_toot = "test test test test test test test test test test test test test
        test test test test test test test test test test test test test
        test test test test test test test test test test test test test
        test test test test test test test test test test test test test
        test test test test";
    status.content = long_toot.to_string();

    let mut tweet = get_twitter_status();
    tweet.text = long_toot.to_string();

    let tweets = vec![tweet];
    let statuses = vec![status];
    let posts = determine_posts(&statuses, &tweets, &default_options());
    assert!(posts.toots.is_empty());
    assert!(posts.tweets.is_empty());
}

// Test that direct toots starting with "@" are not copied to twitter.
#[test]
fn direct_toot() {
    let mut status = get_mastodon_status();
    status.content = "@Test Hello! http://example.com".to_string();
    let tweets: Vec<Tweet> = Vec::new();
    let statuses = vec![status];
    let posts = determine_posts(&statuses, &tweets, &default_options());
    assert!(posts.toots.is_empty());
    assert!(posts.tweets.is_empty());
}

// Test that retweets are ignored when `sync_retweets` is `false`
#[test]
fn ignore_retweets() {
    let mut original_tweet = get_twitter_status();
    original_tweet.user = Some(get_twitter_user());
    original_tweet.id = 1230906460160380928;

    let mut retweet = get_twitter_status();
    retweet.user = Some(get_twitter_user());
    retweet.retweeted = Some(true);
    retweet.retweeted_status = Some(Box::new(original_tweet));

    let tweets = vec![retweet];
    let toots: Vec<Status> = Vec::new();
    let mut options = default_options();
    options.sync_retweets = false;

    let posts = determine_posts(&toots, &tweets, &options);
    assert!(posts.toots.is_empty());
    assert!(posts.tweets.is_empty());
}

// Test that quote tweets are synced when `sync_retweets=false`
#[test]
fn quote_tweets_are_synced_when_ignoring_retweets() {
    let mut original_tweet = get_twitter_status();
    original_tweet.text = "Original text".to_string();
    original_tweet.user = Some(get_twitter_user());
    original_tweet.id = 1230906460160380928;

    let mut quote_tweet = get_twitter_status();
    quote_tweet.text = "Quote tweet test".to_string();
    quote_tweet.quoted_status = Some(Box::new(original_tweet));

    let tweets = vec![quote_tweet];
    let toots: Vec<Status> = Vec::new();
    let mut options = default_options();
    options.sync_retweets = false;

    let posts = determine_posts(&toots, &tweets, &options);

    let sync_toot = &posts.toots[0];

    assert_eq!(
        sync_toot.text,
        "Quote tweet test

QT test123: Original text"
    );
}

// Test that reblogs are ignored when `sync_reblogs` is `false`
#[test]
fn ignore_reblogs() {
    let original_toot = get_mastodon_status();
    let mut boost = get_mastodon_status();
    boost.reblog = Some(Box::new(original_toot));

    let tweets: Vec<Tweet> = Vec::new();
    let toots = vec![boost];
    let mut options = default_options();
    options.sync_reblogs = false;

    let posts = determine_posts(&toots, &tweets, &options);
    assert!(posts.toots.is_empty());
    assert!(posts.tweets.is_empty());
}

// Test tagged posts are sent when hashtag is set
#[test]
fn tagged_posts_sent() {
    let mut status = get_mastodon_status();
    status.content = "Let's #tweet!".to_string();
    let mut tweet = get_twitter_status();
    tweet.text = "Let's #toot!".to_string();

    let mut options = default_options();
    options.sync_hashtag_twitter = Some("#toot".to_string());
    options.sync_hashtag_mastodon = Some("#tweet".to_string());

    let tweets = vec![tweet];
    let toots = vec![status];

    let posts = determine_posts(&toots, &tweets, &options);
    assert!(!posts.toots.is_empty());
    assert!(!posts.tweets.is_empty());
}

// Test posts without a tag are not sent
#[test]
fn ignore_untagged_posts() {
    let mut status = get_mastodon_status();
    status.content = "Let's NOT tweet!".to_string();
    let mut tweet = get_twitter_status();
    tweet.text = "Let's NOT toot!".to_string();

    let mut options = default_options();
    options.sync_hashtag_twitter = Some("#toot".to_string());
    options.sync_hashtag_mastodon = Some("#tweet".to_string());

    let tweets = vec![tweet];
    let toots = vec![status];

    let posts = determine_posts(&toots, &tweets, &options);
    assert!(posts.toots.is_empty());
    assert!(posts.tweets.is_empty());
}

// Test that a Mastodon thread reply is not synced if there is no parent.
#[test]
fn mastodon_thread_reply() {
    let mut status = get_mastodon_status();
    status.in_reply_to_id = Some("1234".to_string());
    let toots = vec![status];

    let tweets: Vec<Tweet> = Vec::new();
    let posts = determine_posts(&toots, &tweets, &default_options());
    assert!(posts.toots.is_empty());
    assert!(posts.tweets.is_empty());
}

// Test that the post order is correct.
#[test]
fn post_order() {
    let mut toot1 = get_mastodon_status();
    toot1.content = "toot #1".to_string();
    let mut toot2 = get_mastodon_status();
    toot2.content = "toot #2".to_string();

    let mut tweet1 = get_twitter_status();
    tweet1.text = "tweet #1".to_string();
    let mut tweet2 = get_twitter_status();
    tweet2.text = "tweet #2".to_string();

    let posts = determine_posts(&vec![toot1, toot2], &vec![tweet1, tweet2], &default_options());
    assert_eq!(
        vec!["tweet #2", "tweet #1"],
        posts.toots.iter().map(|v| v.text.as_str()).collect::<Vec<&str>>()
    );
    assert_eq!(
        vec!["toot #2", "toot #1"],
        posts.tweets.iter().map(|v| v.text.as_str()).collect::<Vec<&str>>()
    );
}

// Running the planner a second time, after both timelines already carry each
// other's posts, plans nothing: nothing is ever double-posted.
#[test]
fn second_run_plans_nothing() {
    let mut toot = get_mastodon_status();
    toot.content = "Fresh news".to_string();
    let mut mirrored_toot = get_mastodon_status();
    mirrored_toot.content = "Old tweet".to_string();

    let mut tweet = get_twitter_status();
    tweet.text = "Old tweet".to_string();
    let mut mirrored_tweet = get_twitter_status();
    mirrored_tweet.text = "Fresh news".to_string();

    let toots = vec![mirrored_toot, toot];
    let tweets = vec![mirrored_tweet, tweet];
    let posts = determine_posts(&toots, &tweets, &default_options());
    assert!(posts.toots.is_empty());
    assert!(posts.tweets.is_empty());
}

// A quote-post whose canonical text matches an already-synced post exactly
// is recognized as synced and not re-posted.
#[test]
fn quote_post_already_synced() {
    let mut original_tweet = get_twitter_status();
    original_tweet.text = "Original text".to_string();
    original_tweet.user = Some(get_twitter_user());
    original_tweet.id = 1230906460160380928;

    let mut quote_tweet = get_twitter_status();
    quote_tweet.text = "Quote tweet test https://t.co/MqIukRm3dG".to_string();
    quote_tweet.urls = vec![UrlEntity {
        url: "https://t.co/MqIukRm3dG".to_string(),
        expanded_url: Some("https://twitter.com/test123/status/1230906460160380928".to_string()),
    }];
    quote_tweet.quoted_status = Some(Box::new(original_tweet));

    let mut status = get_mastodon_status();
    status.content = "Quote tweet test\n\nQT test123: Original text".to_string();

    let posts = determine_posts(&vec![status], &vec![quote_tweet], &default_options());
    assert!(posts.toots.is_empty());
    assert!(posts.tweets.is_empty());
}
