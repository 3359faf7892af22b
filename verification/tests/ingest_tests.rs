use news_reader::ingest::{apply_entries, ingest_entry, EntryData};
use news_reader::model::PostFilter;
use news_reader::store::Store;

fn store_with_feed() -> (Store, i64) {
    let mut store = Store::new();
    let fid = store
        .add_feed_with_category("http://feeds.example/a".to_string(), "General".to_string())
        .unwrap();
    (store, fid)
}

fn entry(url: &str) -> EntryData {
    EntryData {
        title: Some("Title".to_string()),
        link: Some(url.to_string()),
        content_body: Some("Body".to_string()),
        summary: Some("Summary".to_string()),
        published: None,
        updated: None,
    }
}

fn posts(store: &Store) -> Vec<news_reader::model::Post> {
    store.query_posts(&PostFilter {
        only_unread: false,
        only_bookmarked: false,
        only_archived: false,
        only_read_later: false,
    })
}

#[test]
fn entry_body_falls_back_to_summary_when_blank() {
    let (mut store, fid) = store_with_feed();
    let mut e = entry("http://e.com/1");
    e.content_body = Some(" \t\n ".to_string());
    assert!(ingest_entry(&mut store, fid, e));
    assert_eq!(posts(&store)[0].content, Some("Summary".to_string()));

    let mut e2 = entry("http://e.com/2");
    e2.content_body = None;
    assert!(ingest_entry(&mut store, fid, e2));
    let p2 = posts(&store)
        .into_iter()
        .find(|p| p.url == "http://e.com/2")
        .unwrap();
    assert_eq!(p2.content, Some("Summary".to_string()));

    let mut e3 = entry("http://e.com/3");
    e3.content_body = Some("Body".to_string());
    assert!(ingest_entry(&mut store, fid, e3));
    let p3 = posts(&store)
        .into_iter()
        .find(|p| p.url == "http://e.com/3")
        .unwrap();
    assert_eq!(p3.content, Some("Body".to_string()));
}

#[test]
fn entry_prefers_published_over_updated() {
    let (mut store, fid) = store_with_feed();
    let mut e = entry("http://e.com/1");
    e.published = Some(5);
    e.updated = Some(9);
    assert!(ingest_entry(&mut store, fid, e));
    assert_eq!(posts(&store)[0].pub_date, Some(5));

    let mut e2 = entry("http://e.com/2");
    e2.published = None;
    e2.updated = Some(9);
    assert!(ingest_entry(&mut store, fid, e2));
    let p2 = posts(&store)
        .into_iter()
        .find(|p| p.url == "http://e.com/2")
        .unwrap();
    assert_eq!(p2.pub_date, Some(9));
}

#[test]
fn ingested_entries_start_with_all_flags_clear() {
    let (mut store, fid) = store_with_feed();
    apply_entries(&mut store, fid, vec![entry("http://e.com/1"), entry("http://e.com/2")]);
    let all = posts(&store);
    assert_eq!(all.len(), 2);
    for p in all {
        assert!(!p.is_read && !p.is_bookmarked && !p.is_archived && !p.is_read_later);
        assert_eq!(p.feed_id, fid);
        assert_eq!(p.feed_title, None);
    }
}

#[test]
fn ingesting_same_entry_twice_stores_it_once() {
    let (mut store, fid) = store_with_feed();
    assert!(ingest_entry(&mut store, fid, entry("http://e.com/1")));
    assert!(!ingest_entry(&mut store, fid, entry("http://e.com/1")));
    assert_eq!(store.get_total_posts_count(), 1);
}

#[test]
fn ingest_for_unknown_feed_is_a_no_op() {
    let (mut store, _fid) = store_with_feed();
    assert!(!ingest_entry(&mut store, 999, entry("http://e.com/1")));
    assert_eq!(store.get_total_posts_count(), 0);
}

fn entries_of(xml: &str) -> Vec<EntryData> {
    let feed = feed_rs::parser::parse(xml.as_bytes()).unwrap();
    feed.entries
        .into_iter()
        .map(|e| EntryData {
            title: e.title.map(|t| t.content),
            link: e.links.first().map(|l| l.href.clone()),
            content_body: e.content.and_then(|c| c.body),
            summary: e.summary.map(|s| s.content),
            published: e.published.map(|d| d.timestamp()),
            updated: e.updated.map(|d| d.timestamp()),
        })
        .collect()
}

#[test]
fn rss_document_parses_into_posts() {
    let (mut store, fid) = store_with_feed();
    let xml = "<?xml version=\"1.0\"?>\
<rss version=\"2.0\"><channel><title>Chan</title>\
<item><title>Hello</title><link>http://e.com/1</link>\
<description>World</description>\
<pubDate>Thu, 01 Jan 2015 00:00:00 GMT</pubDate></item>\
<item><title>Second</title><link>http://e.com/2</link>\
<description>More</description></item>\
</channel></rss>";
    apply_entries(&mut store, fid, entries_of(xml));
    let all = posts(&store);
    assert_eq!(all.len(), 2);
    let hello = all.iter().find(|p| p.url == "http://e.com/1").unwrap();
    assert_eq!(hello.title, "Hello");
    assert_eq!(hello.content, Some("World".to_string()));
    assert_eq!(hello.pub_date, Some(1420070400));
}

#[test]
fn unparsable_bytes_yield_no_entries() {
    assert!(feed_rs::parser::parse(&b"this is not a feed"[..]).is_err());
    let (mut store, _fid) = store_with_feed();
    apply_entries(&mut store, _fid, Vec::new());
    assert_eq!(store.get_total_posts_count(), 0);
}

#[test]
fn duplicate_url_within_one_batch_is_stored_once() {
    let (mut store, fid) = store_with_feed();
    let mut first = entry("http://e.com/1");
    first.title = Some("First".to_string());
    let mut second = entry("http://e.com/1");
    second.title = Some("Second".to_string());
    apply_entries(&mut store, fid, vec![first, second, entry("http://e.com/2")]);
    let all = posts(&store);
    assert_eq!(all.len(), 2);
    let kept = all.iter().find(|p| p.url == "http://e.com/1").unwrap();
    assert_eq!(kept.title, "First");
}
