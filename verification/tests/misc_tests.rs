use news_reader::categories::CategorySelector;
use news_reader::encode::base64_encode;
use news_reader::config::{AppConfig, FeedsConfig, FeedSource, UiConfig};
use news_reader::input::TextInput;
use news_reader::model::truncate_str;
use news_reader::nav::{NavNode, SidebarState, SmartView};
use news_reader::quotes::pick_quote;
use news_reader::stats::AppStats;
use news_reader::store::Store;
use news_reader::tabs::{Tab, TabState};

#[test]
fn smart_view_titles_and_order() {
    let all = SmartView::all();
    assert_eq!(
        all,
        vec![
            SmartView::Fresh,
            SmartView::Starred,
            SmartView::ReadLater,
            SmartView::Archived,
        ]
    );
    assert_eq!(SmartView::Fresh.title(), "Fresh");
    assert_eq!(SmartView::ReadLater.title(), "Read Later");
}

#[test]
fn nav_node_identity_is_structural() {
    let a = NavNode::Category("Tech".to_string());
    let b = NavNode::Category("Tech".to_string());
    let c = NavNode::Category("Life".to_string());
    let d = NavNode::SmartView(SmartView::Fresh);
    assert!(a.same(&b));
    assert!(!a.same(&c));
    assert!(!a.same(&d));
    assert!(d.same(&NavNode::SmartView(SmartView::Fresh)));
    assert_eq!(a.title(), "Tech");
    assert_eq!(d.title(), "Fresh");
}

#[test]
fn staleness_is_judged_against_the_stamp() {
    let mut sidebar = SidebarState::new();
    let node = NavNode::SmartView(SmartView::Fresh);
    assert!(sidebar.is_stale(&node, 1000, 60));
    sidebar.mark_fetched(node.clone(), 1000);
    assert!(!sidebar.is_stale(&node, 1030, 60));
    assert!(sidebar.is_stale(&node, 1100, 60));
}

#[test]
fn marking_an_unknown_category_is_a_no_op() {
    let mut sidebar = SidebarState::new();
    let node = NavNode::Category("Nowhere".to_string());
    sidebar.mark_fetched(node.clone(), 5);
    assert!(sidebar.is_stale(&node, 10, 1));
    assert_eq!(sidebar.get_count(&node), 0);
}

#[test]
fn text_input_edits_at_the_cursor() {
    let mut input = TextInput::new();
    input.insert_char('a');
    input.insert_char('c');
    input.move_cursor_left();
    input.insert_char('b');
    assert_eq!(input.text(), "abc");
    assert_eq!(input.cursor_position, 2);
    input.delete_char();
    assert_eq!(input.text(), "ac");
    input.move_cursor_right();
    input.insert_char('e');
    assert_eq!(input.text(), "ace");
    input.clear();
    assert_eq!(input.text(), "");
    assert_eq!(input.cursor_position, 0);
    // Deleting at the start does nothing.
    input.delete_char();
    assert_eq!(input.cursor_position, 0);
}

#[test]
fn category_selector_wraps_both_ways() {
    let mut sel = CategorySelector::new();
    assert_eq!(sel.get_selected(), "General");
    sel.categories = vec!["General".to_string(), "Tech".to_string(), "Life".to_string()];
    sel.selected_index = 0;
    sel.next();
    sel.next();
    assert_eq!(sel.get_selected(), "Life");
    sel.next();
    assert_eq!(sel.get_selected(), "General");
    sel.previous();
    assert_eq!(sel.get_selected(), "Life");
}

#[test]
fn category_selector_reload_keeps_general() {
    let mut store = Store::new();
    store.add_category("Tech".to_string());
    let mut sel = CategorySelector::new();
    sel.load_from_store(&store);
    let names: Vec<&str> = sel.categories.iter().map(|c| c.as_str()).collect();
    assert_eq!(names, vec!["General", "Tech"]);
}

#[test]
fn tab_strip_wraps_and_jumps() {
    let mut tabs = TabState::new();
    assert_eq!(*tabs.get_active(), Tab::FreshFeed);
    tabs.previous();
    assert_eq!(*tabs.get_active(), Tab::FeedManager);
    tabs.next();
    assert_eq!(*tabs.get_active(), Tab::FreshFeed);
    tabs.set_active(4);
    assert_eq!(*tabs.get_active(), Tab::Archived);
    tabs.set_active(99);
    assert_eq!(*tabs.get_active(), Tab::Archived);
    assert_eq!(Tab::FeedManager.title(), "Feeds");
}

#[test]
fn config_defaults_match_stock_settings() {
    let app = AppConfig::default();
    assert_eq!(app.theme, "catppuccin-mocha");
    assert!(!app.startup_cleanup);
    let ui = UiConfig::default();
    assert!(ui.show_ascii_banner);
    assert_eq!(ui.default_tab, "all-posts");
    let feeds = FeedsConfig::default();
    assert!(feeds.urls.is_empty() && feeds.sources.is_empty());
}

#[test]
fn feed_source_lists_single_then_many() {
    let source = FeedSource {
        url: Some("http://one.example".to_string()),
        urls: Some(vec![
            "http://two.example".to_string(),
            "http://three.example".to_string(),
        ]),
        category: "Tech".to_string(),
    };
    assert_eq!(
        source.get_urls(),
        vec![
            "http://one.example".to_string(),
            "http://two.example".to_string(),
            "http://three.example".to_string(),
        ]
    );
    let bare = FeedSource { url: None, urls: None, category: "Tech".to_string() };
    assert!(bare.get_urls().is_empty());
}

#[test]
fn stats_snapshot_counts_by_flag() {
    let mut store = Store::new();
    let fid = store
        .add_feed_with_category("http://feeds.example/a".to_string(), "Tech".to_string())
        .unwrap();
    for i in 0..4 {
        let url = format!("http://e.com/{}", i);
        store.insert_post_if_absent(fid, "p".to_string(), url, None, Some(i));
    }
    let ids: Vec<i64> = store
        .query_posts(&news_reader::model::PostFilter {
            only_unread: false,
            only_bookmarked: false,
            only_archived: false,
            only_read_later: false,
        })
        .iter()
        .map(|p| p.id)
        .collect();
    store.set_flag(ids[0], news_reader::store::PostFlag::Read, true);
    store.set_flag(ids[1], news_reader::store::PostFlag::Bookmarked, true);
    store.set_flag(ids[2], news_reader::store::PostFlag::Archived, true);
    let stats = AppStats::from_store(&store);
    assert_eq!(stats.total_posts, 4);
    assert_eq!(stats.read_posts, 1);
    assert_eq!(stats.unread_posts, 3);
    assert_eq!(stats.saved_posts, 1);
    assert_eq!(stats.archived_posts, 1);
    assert_eq!(stats.read_later_posts, 0);
    assert_eq!(stats.feeds_count, 1);
    assert_eq!(stats.categories, vec![("Tech".to_string(), 4)]);
    let zero = AppStats::default();
    assert_eq!(zero.total_posts, 0);
    assert_eq!(zero.feeds_count, 0);
}

#[test]
fn truncation_keeps_short_strings_whole() {
    assert_eq!(truncate_str("hello", 10), "hello");
    assert_eq!(truncate_str("hello world", 8), "hello...");
    assert_eq!(truncate_str("abcdef", 3), "...");
    assert_eq!(truncate_str("abcdef", 2), "...");
}

#[test]
fn base64_matches_known_vectors() {
    assert_eq!(base64_encode("Man"), "TWFu");
    assert_eq!(base64_encode("Ma"), "TWE=");
    assert_eq!(base64_encode("M"), "TQ==");
    assert_eq!(base64_encode(""), "");
    assert_eq!(base64_encode("hello"), "aGVsbG8=");
    assert_eq!(
        base64_encode("http://e.com/1"),
        "aHR0cDovL2UuY29tLzE="
    );
}

#[test]
fn quote_pick_is_the_seeded_slot() {
    assert_eq!(pick_quote(0), "\"Stay curious, keep reading.\"");
    assert_eq!(pick_quote(13), "\"Knowledge is the new currency.\"");
    assert_eq!(pick_quote(11), "\"Books are a uniquely portable magic.\"");
    assert_eq!(pick_quote(24), pick_quote(0));
}
