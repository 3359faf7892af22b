use news_reader::model::{Post, PostFilter};
use news_reader::store::{PostFlag, Store};

fn no_filter() -> PostFilter {
    PostFilter {
        only_unread: false,
        only_bookmarked: false,
        only_archived: false,
        only_read_later: false,
    }
}

fn add_post(store: &mut Store, feed_id: i64, title: &str, url: &str, date: Option<i64>) -> bool {
    store.insert_post_if_absent(
        feed_id,
        title.to_string(),
        url.to_string(),
        Some(String::new()),
        date,
    )
}

fn all_posts(store: &Store) -> Vec<Post> {
    store.query_posts(&no_filter())
}

#[test]
fn ingest_is_idempotent_on_url() {
    let mut store = Store::new();
    let fid = store
        .add_feed_with_category("http://feeds.example/a".to_string(), "General".to_string())
        .unwrap();
    assert!(add_post(&mut store, fid, "One", "http://e.com/1", Some(100)));
    assert!(!add_post(&mut store, fid, "One again", "http://e.com/1", Some(200)));
    assert_eq!(store.get_total_posts_count(), 1);
    let posts = all_posts(&store);
    assert_eq!(posts.len(), 1);
    assert_eq!(posts[0].title, "One");
    assert_eq!(posts[0].pub_date, Some(100));
}

#[test]
fn fresh_digest_is_fair_across_categories() {
    let mut store = Store::new();
    store.add_category("A".to_string());
    store.add_category("B".to_string());
    let fa = store
        .add_feed_with_category("http://feeds.example/a".to_string(), "A".to_string())
        .unwrap();
    let fb = store
        .add_feed_with_category("http://feeds.example/b".to_string(), "B".to_string())
        .unwrap();
    for i in 0..50 {
        let url = format!("http://a.example/{}", i);
        assert!(add_post(&mut store, fa, "a", &url, Some(1000 + i)));
    }
    for i in 0..2 {
        let url = format!("http://b.example/{}", i);
        assert!(add_post(&mut store, fb, "b", &url, Some(2000 + i)));
    }
    let digest = store.get_fresh_feed(15);
    assert_eq!(digest.len(), 17);
    let from_a = digest.iter().filter(|p| p.feed_id == fa).count();
    let from_b = digest.iter().filter(|p| p.feed_id == fb).count();
    assert_eq!(from_a, 15);
    assert_eq!(from_b, 2);
    for w in digest.windows(2) {
        assert!(w[0].pub_date >= w[1].pub_date);
    }
    // The 15 from A are its newest unread posts.
    for p in digest.iter().filter(|p| p.feed_id == fa) {
        assert!(p.pub_date.unwrap() >= 1000 + 35);
    }
}

#[test]
fn digest_skips_read_posts() {
    let mut store = Store::new();
    let fid = store
        .add_feed_with_category("http://feeds.example/a".to_string(), "General".to_string())
        .unwrap();
    assert!(add_post(&mut store, fid, "read", "http://e.com/r", Some(50)));
    assert!(add_post(&mut store, fid, "unread", "http://e.com/u", Some(40)));
    let read_id = all_posts(&store)
        .iter()
        .find(|p| p.title == "read")
        .unwrap()
        .id;
    store.set_flag(read_id, PostFlag::Read, true);
    let digest = store.get_fresh_feed(15);
    assert_eq!(digest.len(), 1);
    assert_eq!(digest[0].title, "unread");
}

#[test]
fn missing_publish_date_sorts_as_oldest() {
    let mut store = Store::new();
    let fid = store
        .add_feed_with_category("http://feeds.example/a".to_string(), "General".to_string())
        .unwrap();
    assert!(add_post(&mut store, fid, "undated", "http://e.com/n", None));
    assert!(add_post(&mut store, fid, "old", "http://e.com/o", Some(-5)));
    assert!(add_post(&mut store, fid, "new", "http://e.com/w", Some(10)));
    let posts = all_posts(&store);
    assert_eq!(posts.len(), 3);
    assert_eq!(posts[0].title, "new");
    assert_eq!(posts[1].title, "old");
    assert_eq!(posts[2].title, "undated");
}

#[test]
fn query_window_caps_at_one_hundred() {
    let mut store = Store::new();
    let fid = store
        .add_feed_with_category("http://feeds.example/a".to_string(), "General".to_string())
        .unwrap();
    for i in 0..105 {
        let url = format!("http://e.com/{}", i);
        assert!(add_post(&mut store, fid, "p", &url, Some(i)));
    }
    let posts = all_posts(&store);
    assert_eq!(posts.len(), 100);
    // Only the newest hundred stay.
    assert!(posts.iter().all(|p| p.pub_date.unwrap() >= 5));
    assert_eq!(store.get_total_posts_count(), 105);
}

#[test]
fn flag_queries_select_by_flag() {
    let mut store = Store::new();
    let fid = store
        .add_feed_with_category("http://feeds.example/a".to_string(), "General".to_string())
        .unwrap();
    assert!(add_post(&mut store, fid, "one", "http://e.com/1", Some(1)));
    assert!(add_post(&mut store, fid, "two", "http://e.com/2", Some(2)));
    let one = all_posts(&store).iter().find(|p| p.title == "one").unwrap().id;
    store.set_flag(one, PostFlag::Bookmarked, true);
    store.set_flag(one, PostFlag::ReadLater, true);
    let starred = store.query_posts(&PostFilter {
        only_unread: false,
        only_bookmarked: true,
        only_archived: false,
        only_read_later: false,
    });
    assert_eq!(starred.len(), 1);
    assert_eq!(starred[0].title, "one");
    let archived = store.query_posts(&PostFilter {
        only_unread: false,
        only_bookmarked: false,
        only_archived: true,
        only_read_later: false,
    });
    assert_eq!(archived.len(), 0);
}

#[test]
fn category_deletion_reassigns_feeds_to_general() {
    let mut store = Store::new();
    store.add_category("Tech".to_string());
    for i in 0..4 {
        let url = format!("http://feeds.example/{}", i);
        store
            .add_feed_with_category(url, "Tech".to_string())
            .unwrap();
    }
    assert!(store
        .list_categories()
        .iter()
        .any(|c| c == "Tech"));
    store.delete_category(&"Tech".to_string());
    let cats = store.list_categories();
    assert!(!cats.iter().any(|c| c == "Tech"));
    assert!(cats.iter().any(|c| c == "General"));
    let feeds = store.list_feeds();
    assert_eq!(feeds.len(), 4);
    assert!(feeds.iter().all(|f| f.category == "General"));
}

#[test]
fn delete_feed_cascades_to_posts() {
    let mut store = Store::new();
    let fa = store
        .add_feed_with_category("http://feeds.example/a".to_string(), "General".to_string())
        .unwrap();
    let fb = store
        .add_feed_with_category("http://feeds.example/b".to_string(), "General".to_string())
        .unwrap();
    assert!(add_post(&mut store, fa, "a1", "http://e.com/a1", Some(1)));
    assert!(add_post(&mut store, fb, "b1", "http://e.com/b1", Some(2)));
    assert!(store.delete_feed(fa));
    assert_eq!(store.get_total_feeds_count(), 1);
    let posts = all_posts(&store);
    assert_eq!(posts.len(), 1);
    assert_eq!(posts[0].title, "b1");
}

#[test]
fn delete_post_removes_only_that_post() {
    let mut store = Store::new();
    let fid = store
        .add_feed_with_category("http://feeds.example/a".to_string(), "General".to_string())
        .unwrap();
    assert!(add_post(&mut store, fid, "one", "http://e.com/1", Some(1)));
    assert!(add_post(&mut store, fid, "two", "http://e.com/2", Some(2)));
    let one = all_posts(&store).iter().find(|p| p.title == "one").unwrap().id;
    assert!(store.delete_post(one));
    assert!(!store.delete_post(one));
    let posts = all_posts(&store);
    assert_eq!(posts.len(), 1);
    assert_eq!(posts[0].title, "two");
}

#[test]
fn subscribing_same_url_twice_returns_same_feed() {
    let mut store = Store::new();
    let first = store
        .add_feed_with_category("http://feeds.example/a".to_string(), "General".to_string())
        .unwrap();
    let second = store
        .add_feed_with_category("http://feeds.example/a".to_string(), "Tech".to_string())
        .unwrap();
    assert_eq!(first, second);
    assert_eq!(store.get_total_feeds_count(), 1);
    assert_eq!(store.list_feeds()[0].category, "General");
}

#[test]
fn categories_come_from_explicit_list_and_feeds() {
    let mut store = Store::new();
    store.add_category("Manual".to_string());
    store
        .add_feed_with_category("http://feeds.example/a".to_string(), "FromFeed".to_string())
        .unwrap();
    let cats = store.list_categories();
    let names: Vec<&str> = cats.iter().map(|c| c.as_str()).collect();
    assert_eq!(names, vec!["FromFeed", "General", "Manual"]);
    // Re-adding an existing name changes nothing.
    store.add_category("Manual".to_string());
    assert_eq!(store.list_categories().len(), 3);
}

#[test]
fn rename_category_moves_feeds() {
    let mut store = Store::new();
    store.add_category("Old".to_string());
    store
        .add_feed_with_category("http://feeds.example/a".to_string(), "Old".to_string())
        .unwrap();
    store.rename_category(&"Old".to_string(), &"New".to_string());
    let cats = store.list_categories();
    assert!(!cats.iter().any(|c| c == "Old"));
    assert!(cats.iter().any(|c| c == "New"));
    assert_eq!(store.list_feeds()[0].category, "New");
}

#[test]
fn update_feed_category_refiles_one_feed() {
    let mut store = Store::new();
    let fa = store
        .add_feed_with_category("http://feeds.example/a".to_string(), "General".to_string())
        .unwrap();
    store
        .add_feed_with_category("http://feeds.example/b".to_string(), "General".to_string())
        .unwrap();
    assert!(store.update_feed_category(fa, "Tech".to_string()));
    let feeds = store.list_feeds();
    assert_eq!(feeds.iter().find(|f| f.id == fa).unwrap().category, "Tech");
    assert_eq!(feeds.iter().filter(|f| f.category == "General").count(), 1);
}

#[test]
fn cleanup_old_posts_keeps_bookmarked_and_undated() {
    let mut store = Store::new();
    let fid = store
        .add_feed_with_category("http://feeds.example/a".to_string(), "General".to_string())
        .unwrap();
    let day: i64 = 86400;
    let now: i64 = 100 * day;
    assert!(add_post(&mut store, fid, "ancient", "http://e.com/1", Some(now - 40 * day)));
    assert!(add_post(&mut store, fid, "kept-star", "http://e.com/2", Some(now - 40 * day)));
    assert!(add_post(&mut store, fid, "recent", "http://e.com/3", Some(now - 5 * day)));
    assert!(add_post(&mut store, fid, "undated", "http://e.com/4", None));
    let star = all_posts(&store)
        .iter()
        .find(|p| p.title == "kept-star")
        .unwrap()
        .id;
    store.set_flag(star, PostFlag::Bookmarked, true);
    let removed = store.cleanup_old_posts(now, 30);
    assert_eq!(removed, 1);
    let titles: Vec<String> = all_posts(&store).iter().map(|p| p.title.clone()).collect();
    assert!(!titles.contains(&"ancient".to_string()));
    assert!(titles.contains(&"kept-star".to_string()));
    assert!(titles.contains(&"recent".to_string()));
    assert!(titles.contains(&"undated".to_string()));
}

#[test]
fn cleanup_non_bookmarked_posts_keeps_only_starred() {
    let mut store = Store::new();
    let fid = store
        .add_feed_with_category("http://feeds.example/a".to_string(), "General".to_string())
        .unwrap();
    assert!(add_post(&mut store, fid, "plain", "http://e.com/1", Some(1)));
    assert!(add_post(&mut store, fid, "starred", "http://e.com/2", Some(2)));
    let star = all_posts(&store)
        .iter()
        .find(|p| p.title == "starred")
        .unwrap()
        .id;
    store.set_flag(star, PostFlag::Bookmarked, true);
    store.cleanup_non_bookmarked_posts();
    let posts = all_posts(&store);
    assert_eq!(posts.len(), 1);
    assert_eq!(posts[0].title, "starred");
}

#[test]
fn counts_match_flags() {
    let mut store = Store::new();
    let fid = store
        .add_feed_with_category("http://feeds.example/a".to_string(), "Tech".to_string())
        .unwrap();
    for i in 0..3 {
        let url = format!("http://e.com/{}", i);
        assert!(add_post(&mut store, fid, "p", &url, Some(i)));
    }
    let first = all_posts(&store)[0].id;
    store.set_flag(first, PostFlag::Read, true);
    let unread = store.count_posts(&PostFilter {
        only_unread: true,
        only_bookmarked: false,
        only_archived: false,
        only_read_later: false,
    });
    assert_eq!(unread, 2);
    assert_eq!(store.count_posts_in_category(&"Tech".to_string()), 3);
    assert_eq!(store.count_posts_in_category(&"General".to_string()), 0);
}

#[test]
fn category_stats_group_by_feed_category() {
    let mut store = Store::new();
    let fa = store
        .add_feed_with_category("http://feeds.example/a".to_string(), "Tech".to_string())
        .unwrap();
    let fb = store
        .add_feed_with_category("http://feeds.example/b".to_string(), "Life".to_string())
        .unwrap();
    assert!(add_post(&mut store, fa, "t1", "http://e.com/1", Some(1)));
    assert!(add_post(&mut store, fa, "t2", "http://e.com/2", Some(2)));
    assert!(add_post(&mut store, fb, "l1", "http://e.com/3", Some(3)));
    let stats = store.get_category_stats();
    assert_eq!(stats.len(), 2);
    assert_eq!(stats[0], ("Life".to_string(), 1));
    assert_eq!(stats[1], ("Tech".to_string(), 2));
}

#[test]
fn update_post_content_replaces_body() {
    let mut store = Store::new();
    let fid = store
        .add_feed_with_category("http://feeds.example/a".to_string(), "General".to_string())
        .unwrap();
    assert!(add_post(&mut store, fid, "p", "http://e.com/1", Some(1)));
    let pid = all_posts(&store)[0].id;
    assert!(store.update_post_content(pid, "full text".to_string()));
    assert_eq!(all_posts(&store)[0].content, Some("full text".to_string()));
}

#[test]
fn reset_leaves_only_general() {
    let mut store = Store::new();
    store.add_category("Tech".to_string());
    let fid = store
        .add_feed_with_category("http://feeds.example/a".to_string(), "Tech".to_string())
        .unwrap();
    assert!(add_post(&mut store, fid, "p", "http://e.com/1", Some(1)));
    store.reset();
    assert_eq!(store.get_total_feeds_count(), 0);
    assert_eq!(store.get_total_posts_count(), 0);
    let cats = store.list_categories();
    assert_eq!(cats.len(), 1);
    assert_eq!(cats[0], "General");
}

#[test]
fn query_posts_by_category_selects_by_owning_feed() {
    let mut store = Store::new();
    let fa = store
        .add_feed_with_category("http://feeds.example/a".to_string(), "Tech".to_string())
        .unwrap();
    let fb = store
        .add_feed_with_category("http://feeds.example/b".to_string(), "Life".to_string())
        .unwrap();
    assert!(add_post(&mut store, fa, "t1", "http://e.com/1", Some(5)));
    assert!(add_post(&mut store, fb, "l1", "http://e.com/2", Some(9)));
    let tech = store.query_posts_by_category(&"Tech".to_string());
    assert_eq!(tech.len(), 1);
    assert_eq!(tech[0].title, "t1");
    assert_eq!(tech[0].feed_title, None);
}

#[test]
fn categories_list_ascending_by_name() {
    let mut store = Store::new();
    store.add_category("Zoology".to_string());
    store
        .add_feed_with_category("http://feeds.example/a".to_string(), "Apple".to_string())
        .unwrap();
    let names: Vec<String> = store.list_categories();
    assert_eq!(
        names,
        vec!["Apple".to_string(), "General".to_string(), "Zoology".to_string()]
    );
}
