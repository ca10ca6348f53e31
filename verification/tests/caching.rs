use mastodon_twitter_sync::cache::{filter_posted_before, read_post_cache, PostCache};
use mastodon_twitter_sync::plan::{NewStatus, StatusUpdates};

fn plain_post(text: &str) -> NewStatus {
    NewStatus {
        text: text.to_string(),
        attachments: Vec::new(),
        replies: Vec::new(),
        in_reply_to_id: None,
        original_id: 1,
    }
}

// Inserting more than 150 distinct texts and persisting gives a reload that
// is empty: the cache resets instead of growing without bound.
#[test]
fn cache_resets_past_ceiling() {
    let mut cache = PostCache::new();
    for i in 0..151 {
        cache.insert(format!("text number {i}"));
    }
    assert_eq!(cache.len(), 151);
    let persisted: Vec<String> = cache.items().clone();
    let reloaded = read_post_cache(Some(persisted));
    assert_eq!(reloaded.len(), 0);
}

// A store within the ceiling reloads exactly, duplicates dropped.
#[test]
fn cache_reload_keeps_entries() {
    let persisted = vec![
        "one".to_string(),
        "two".to_string(),
        "one".to_string(),
    ];
    let reloaded = read_post_cache(Some(persisted));
    assert_eq!(reloaded.len(), 2);
    assert!(reloaded.contains(&"one".to_string()));
    assert!(reloaded.contains(&"two".to_string()));
    assert!(!reloaded.contains(&"three".to_string()));
}

// A missing or corrupt store counts as empty.
#[test]
fn cache_missing_store_is_empty() {
    let reloaded = read_post_cache(None);
    assert_eq!(reloaded.len(), 0);
}

// A planned post whose text was posted before is dropped; the rest stays in
// order.
#[test]
fn cache_filters_posted_texts() {
    let mut cache = PostCache::new();
    cache.insert("already posted".to_string());

    let posts = StatusUpdates {
        tweets: vec![plain_post("already posted"), plain_post("novel tweet")],
        toots: vec![plain_post("novel toot")],
    };
    let filtered = filter_posted_before(posts, &cache);
    assert_eq!(filtered.tweets.len(), 1);
    assert_eq!(filtered.tweets[0].text, "novel tweet");
    assert_eq!(filtered.toots.len(), 1);
    assert_eq!(filtered.toots[0].text, "novel toot");
}
