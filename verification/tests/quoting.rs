use mastodon_twitter_sync::model::{
    MediaEntity, Status, StatusAccount, Tweet, TweetUser, UrlEntity,
};
use mastodon_twitter_sync::plan::SyncOptions;
use mastodon_twitter_sync::sync::determine_posts;

fn default_options() -> SyncOptions {
    SyncOptions {
        sync_reblogs: true,
        sync_retweets: true,
        sync_hashtag_twitter: None,
        sync_hashtag_mastodon: None,
    }
}

fn get_mastodon_status() -> Status {
    Status {
        id: 123456,
        content: "".to_string(),
        url: Some("https://mastodon.social/@example/123456".to_string()),
        in_reply_to_id: None,
        account: StatusAccount { acct: "example".to_string() },
        reblog: None,
        media_attachments: Vec::new(),
    }
}

fn get_twitter_status() -> Tweet {
    Tweet {
        id: 123456,
        text: "".to_string(),
        user: None,
        in_reply_to_user_id: None,
        in_reply_to_status_id: None,
        retweeted: None,
        retweeted_status: None,
        quoted_status: None,
        urls: Vec::new(),
        media: None,
    }
}

fn get_twitter_user() -> TweetUser {
    TweetUser { id: 1, screen_name: "test123".to_string() }
}

fn picture_media() -> MediaEntity {
    MediaEntity {
        url: "https://t.co/AhiyYybK1m".to_string(),
        media_url_https: "https://pbs.twimg.com/media/Du70iGVUcAMgBp6.jpg".to_string(),
        ext_alt_text: Some("Accessibility text".to_string()),
        video_info: None,
    }
}

fn get_twitter_status_media() -> Tweet {
    let mut tweet = get_twitter_status();
    tweet.id = 1234567890;
    tweet.text = "Verhalten bei #Hausdurchsuchung https://t.co/AhiyYybK1m".to_string();
    tweet.media = Some(vec![picture_media()]);
    tweet
}

// Test that a quote tweet is directly embedded for posting to Mastodon.
#[test]
fn quote_tweet() {
    let mut quote_tweet = get_twitter_status();
    quote_tweet.text = "Quote tweet test https://t.co/MqIukRm3dG".to_string();
    quote_tweet.urls = vec![UrlEntity {
        url: "https://t.co/MqIukRm3dG".to_string(),
        expanded_url: Some("https://twitter.com/test123/status/1230906460160380928".to_string()),
    }];

    let mut original_tweet = get_twitter_status();
    original_tweet.text = "Original text".to_string();
    original_tweet.user = Some(get_twitter_user());
    original_tweet.id = 1230906460160380928;
    quote_tweet.quoted_status = Some(Box::new(original_tweet));

    let tweets = vec![quote_tweet];
    let toots: Vec<Status> = Vec::new();
    let posts = determine_posts(&toots, &tweets, &default_options());

    let sync_toot = &posts.toots[0];
    assert_eq!(
        sync_toot.text,
        "Quote tweet test

QT test123: Original text"
    );
}

// Test that attachments on a quote tweet get synchronized.
#[test]
fn quote_tweet_attachments() {
    let mut quote_tweet = get_twitter_status_media();
    quote_tweet.text =
        "Quote tweet test https://t.co/MqIukRm3dG https://t.co/AhiyYybK1m".to_string();
    quote_tweet.urls = vec![UrlEntity {
        url: "https://t.co/MqIukRm3dG".to_string(),
        expanded_url: Some("https://twitter.com/test123/status/1230906460160380928".to_string()),
    }];

    let mut original_tweet = get_twitter_status();
    original_tweet.text = "Original text".to_string();
    original_tweet.user = Some(get_twitter_user());
    original_tweet.id = 1230906460160380928;
    quote_tweet.quoted_status = Some(Box::new(original_tweet));

    let tweets = vec![quote_tweet];
    let toots: Vec<Status> = Vec::new();
    let posts = determine_posts(&toots, &tweets, &default_options());

    let sync_toot = &posts.toots[0];
    assert_eq!(
        sync_toot.text,
        "Quote tweet test

QT test123: Original text"
    );
    assert_eq!(
        sync_toot.attachments[0].attachment_url,
        "https://pbs.twimg.com/media/Du70iGVUcAMgBp6.jpg"
    );
}

// Test that attachments on the quote tweet original get synchronized.
#[test]
fn quote_tweet_attachments_original() {
    let mut quote_tweet = get_twitter_status();
    quote_tweet.text = "Quote tweet test https://t.co/MqIukRm3dG".to_string();
    quote_tweet.urls = vec![UrlEntity {
        url: "https://t.co/MqIukRm3dG".to_string(),
        expanded_url: Some("https://twitter.com/test123/status/1230906460160380928".to_string()),
    }];

    let mut original_tweet = get_twitter_status_media();
    original_tweet.user = Some(get_twitter_user());
    original_tweet.id = 1230906460160380928;
    quote_tweet.quoted_status = Some(Box::new(original_tweet));

    let tweets = vec![quote_tweet];
    let toots: Vec<Status> = Vec::new();
    let posts = determine_posts(&toots, &tweets, &default_options());

    let sync_toot = &posts.toots[0];
    assert_eq!(
        sync_toot.text,
        "Quote tweet test

QT test123: Verhalten bei #Hausdurchsuchung"
    );
    assert_eq!(
        sync_toot.attachments[0].attachment_url,
        "https://pbs.twimg.com/media/Du70iGVUcAMgBp6.jpg"
    );
}

// Test that a quote tweet with a mobile.twitter.com link is synced
// correctly.
#[test]
fn mobile_quote_tweet() {
    let mut quote_tweet = get_twitter_status();
    quote_tweet.text = "Quote tweet test https://t.co/MqIukRm3dG".to_string();
    quote_tweet.urls = vec![UrlEntity {
        url: "https://t.co/MqIukRm3dG".to_string(),
        expanded_url: Some(
            "https://mobile.twitter.com/test123/status/1230906460160380928".to_string(),
        ),
    }];

    let mut original_tweet = get_twitter_status();
    original_tweet.text = "Original text".to_string();
    original_tweet.user = Some(get_twitter_user());
    original_tweet.id = 1230906460160380928;
    quote_tweet.quoted_status = Some(Box::new(original_tweet));

    let tweets = vec![quote_tweet];
    let toots: Vec<Status> = Vec::new();
    let posts = determine_posts(&toots, &tweets, &default_options());

    let sync_toot = &posts.toots[0];
    assert_eq!(
        sync_toot.text,
        "Quote tweet test

QT test123: Original text"
    );
}

// Test that a long tweet and a long quote tweet are shortened to pass the
// 500 character limit of Mastodon.
#[test]
fn long_quote_tweet() {
    let mut quote_tweet = get_twitter_status();
    quote_tweet.id = 1515580612391936001;
    quote_tweet.text = "SQLite is an absolute fascinating open source project by 3 old white men. They reject contributions, have a troll code of conduct and even built their own version control system insted of using git! https://t.co/5mE9PjjAsR".to_string();
    quote_tweet.urls = vec![UrlEntity {
        url: "https://t.co/5mE9PjjAsR".to_string(),
        expanded_url: Some("https://twitter.com/test123/status/1515372417081745410".to_string()),
    }];

    let mut original_tweet = get_twitter_status();
    original_tweet.text = "Reminder that there's a *very* small group of maintainers on SQLite and they have some odd practices when it comes to building software. They went as far as building their own VCS so no one else could contribute and have this as their \"Code Of Ethics\" https://t.co/2KL9b2BENN https://t.co/NdfoMUScX2".to_string();
    original_tweet.urls = vec![
        UrlEntity {
            url: "https://t.co/2KL9b2BENN".to_string(),
            expanded_url: Some("https://sqlite.org/codeofethics.html".to_string()),
        },
        UrlEntity {
            url: "https://t.co/NdfoMUScX2".to_string(),
            expanded_url: Some(
                "https://twitter.com/SebastianSzturo/status/1515297367335247877".to_string(),
            ),
        },
    ];
    original_tweet.user = Some(get_twitter_user());
    original_tweet.id = 1515372417081745410;
    quote_tweet.quoted_status = Some(Box::new(original_tweet));

    let tweets = vec![quote_tweet];
    let toots: Vec<Status> = Vec::new();
    let posts = determine_posts(&toots, &tweets, &default_options());

    let sync_toot = &posts.toots[0];
    assert_eq!(
        sync_toot.text,
        "SQLite is an absolute fascinating open source project by 3 old white men. They reject contributions, have a troll code of conduct and even built their own version control system insted of using git!

QT test123: Reminder that there's a *very* small group of maintainers on SQLite and they have some odd practices when it comes to building software. They went as far as building their own VCS so no one else could contribute and have this as… https://twitter.com/twitter/status/1515580612391936001"
    );

    // Also test that a shortened toot is detected as equal.
    let mut status = get_mastodon_status();
    status.content = sync_toot.text.clone();
    let posts = determine_posts(&vec![status], &tweets, &default_options());
    assert!(posts.toots.is_empty());
    assert!(posts.tweets.is_empty());
}

// Test that a retweet of a quote tweet also includes the quoted text.
#[test]
fn retweet_quote_tweet() {
    let mut quote_tweet = get_twitter_status();
    quote_tweet.text = "Quote tweet test https://t.co/MqIukRm3dG".to_string();
    quote_tweet.urls = vec![UrlEntity {
        url: "https://t.co/MqIukRm3dG".to_string(),
        expanded_url: Some("https://twitter.com/test123/status/1230906460160380928".to_string()),
    }];
    quote_tweet.user = Some(get_twitter_user());

    let mut original_tweet = get_twitter_status();
    original_tweet.text = "Original text".to_string();
    original_tweet.user = Some(get_twitter_user());
    original_tweet.id = 1230906460160380928;
    quote_tweet.quoted_status = Some(Box::new(original_tweet));

    let mut retweet = get_twitter_status();
    retweet.user = Some(get_twitter_user());
    retweet.retweeted = Some(true);
    retweet.retweeted_status = Some(Box::new(quote_tweet));

    let tweets = vec![retweet];
    let toots: Vec<Status> = Vec::new();
    let posts = determine_posts(&toots, &tweets, &default_options());

    let sync_toot = &posts.toots[0];
    assert_eq!(
        sync_toot.text,
        "RT test123: Quote tweet test

QT test123: Original text"
    );
}
