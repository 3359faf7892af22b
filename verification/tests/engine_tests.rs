use news_reader::engine::{App, ConfirmAction, InputMode};
use news_reader::ingest::{ingest_entry, EntryData};
use news_reader::model::Post;
use news_reader::nav::{FocusPane, NavNode, SidebarSection, SidebarState, SmartView};
use news_reader::store::{PostFlag, Store};

fn store_with_feed(category: &str) -> (Store, i64) {
    let mut store = Store::new();
    let fid = store
        .add_feed_with_category(format!("http://feeds.example/{}", category), category.to_string())
        .unwrap();
    (store, fid)
}

fn add_post(store: &mut Store, feed_id: i64, title: &str, url: &str, date: Option<i64>) {
    assert!(store.insert_post_if_absent(
        feed_id,
        title.to_string(),
        url.to_string(),
        Some(String::new()),
        date,
    ));
}

fn starred_setup() -> (App, Store) {
    let (mut store, fid) = store_with_feed("General");
    add_post(&mut store, fid, "one", "http://e.com/1", Some(30));
    add_post(&mut store, fid, "two", "http://e.com/2", Some(20));
    add_post(&mut store, fid, "three", "http://e.com/3", Some(10));
    for p in store.query_posts(&news_reader::model::PostFilter {
        only_unread: false,
        only_bookmarked: false,
        only_archived: false,
        only_read_later: false,
    }) {
        store.set_flag(p.id, PostFlag::Bookmarked, true);
    }
    let mut app = App::new(&store);
    app.active_node = NavNode::SmartView(SmartView::Starred);
    app.reload_posts_for_active_node(&store);
    (app, store)
}

#[test]
fn selection_is_always_in_bounds_after_materialization() {
    let (mut store, fid) = store_with_feed("General");
    add_post(&mut store, fid, "one", "http://e.com/1", Some(1));
    let mut app = App::new(&store);
    app.selected_index = 0;
    app.active_node = NavNode::Category("General".to_string());
    app.reload_posts_for_active_node(&store);
    assert!(app.selected_index < app.posts.len());
    // An empty view parks the selection at zero.
    app.active_node = NavNode::SmartView(SmartView::Archived);
    app.reload_posts_for_active_node(&store);
    assert!(app.posts.is_empty());
    assert_eq!(app.selected_index, 0);
}

#[test]
fn unstarring_in_starred_view_removes_from_list() {
    let (mut app, mut store) = starred_setup();
    assert_eq!(app.posts.len(), 3);
    app.selected_index = 1;
    app.toggle_bookmark(&mut store);
    assert_eq!(app.posts.len(), 2);
    assert!(app.posts.iter().all(|p| p.title != "two"));
    assert_eq!(app.selected_index, 1);
    assert!(app.selected_index < app.posts.len());
}

#[test]
fn unstarring_last_entry_clamps_selection() {
    let (mut app, mut store) = starred_setup();
    app.selected_index = 2;
    app.toggle_bookmark(&mut store);
    assert_eq!(app.posts.len(), 2);
    assert_eq!(app.selected_index, 1);
}

#[test]
fn starring_outside_starred_view_keeps_list_membership() {
    let (mut store, fid) = store_with_feed("General");
    add_post(&mut store, fid, "one", "http://e.com/1", Some(30));
    let mut app = App::new(&store);
    app.active_node = NavNode::Category("General".to_string());
    app.reload_posts_for_active_node(&store);
    app.toggle_bookmark(&mut store);
    assert_eq!(app.posts.len(), 1);
    assert!(app.posts[0].is_bookmarked);
    app.toggle_bookmark(&mut store);
    assert_eq!(app.posts.len(), 1);
    assert!(!app.posts[0].is_bookmarked);
}

#[test]
fn refresh_completion_for_inactive_node_leaves_view_untouched() {
    let mut store = Store::new();
    let tech = store
        .add_feed_with_category("http://feeds.example/t".to_string(), "Tech".to_string())
        .unwrap();
    let news = store
        .add_feed_with_category("http://feeds.example/n".to_string(), "News".to_string())
        .unwrap();
    add_post(&mut store, news, "n1", "http://e.com/n1", Some(5));
    let mut app = App::new(&store);
    app.active_node = NavNode::Category("News".to_string());
    app.reload_posts_for_active_node(&store);
    app.refresh_sidebar(&store);
    let snapshot: Vec<Post> = app.posts.clone();
    // A background refresh for Tech lands new data in the store.
    ingest_entry(
        &mut store,
        tech,
        EntryData {
            title: Some("t1".to_string()),
            link: Some("http://e.com/t1".to_string()),
            content_body: Some("body".to_string()),
            summary: None,
            published: Some(50),
            updated: None,
        },
    );
    let tech_node = NavNode::Category("Tech".to_string());
    app.handle_refresh_completion(&store, &tech_node, 1000);
    // The list the user is looking at is byte-for-byte unchanged ...
    assert_eq!(app.posts, snapshot);
    // ... while the completed node's count and staleness stamp moved.
    assert_eq!(app.sidebar.get_count(&tech_node), 1);
    assert!(!app.sidebar.is_stale(&tech_node, 1000, 60));
    assert!(!app.is_loading);
}

#[test]
fn refresh_completion_for_active_node_rematerializes() {
    let mut store = Store::new();
    let tech = store
        .add_feed_with_category("http://feeds.example/t".to_string(), "Tech".to_string())
        .unwrap();
    let mut app = App::new(&store);
    app.active_node = NavNode::Category("Tech".to_string());
    app.reload_posts_for_active_node(&store);
    assert!(app.posts.is_empty());
    add_post(&mut store, tech, "t1", "http://e.com/t1", Some(50));
    app.handle_refresh_completion(&store, &NavNode::Category("Tech".to_string()), 7);
    assert_eq!(app.posts.len(), 1);
    assert_eq!(app.posts[0].title, "t1");
}

#[test]
fn cursor_enters_categories_from_last_smart_view() {
    let (store, _fid) = store_with_feed("General");
    let mut app = App::new(&store);
    app.sidebar.smart_view_index = 3;
    assert!(!app.sidebar.categories.is_empty());
    app.sidebar.next();
    assert_eq!(app.sidebar.section, SidebarSection::Categories);
    assert_eq!(app.sidebar.category_index, 0);
}

#[test]
fn cursor_stays_put_past_last_smart_view_without_categories() {
    let mut sidebar = SidebarState::new();
    sidebar.smart_view_index = 3;
    assert!(sidebar.categories.is_empty());
    sidebar.next();
    assert_eq!(sidebar.section, SidebarSection::SmartViews);
    assert_eq!(sidebar.smart_view_index, 3);
}

#[test]
fn cursor_returns_to_last_smart_view_from_first_category() {
    let (store, _fid) = store_with_feed("General");
    let mut app = App::new(&store);
    app.sidebar.smart_view_index = 3;
    app.sidebar.next();
    app.sidebar.previous();
    assert_eq!(app.sidebar.section, SidebarSection::SmartViews);
    assert_eq!(app.sidebar.smart_view_index, 3);
}

#[test]
fn opening_marks_read_and_removal_waits_for_close() {
    let (mut store, fid) = store_with_feed("General");
    add_post(&mut store, fid, "one", "http://e.com/1", Some(30));
    add_post(&mut store, fid, "two", "http://e.com/2", Some(20));
    let mut app = App::new(&store);
    // The fresh view in unread-only mode is active by default.
    app.reload_posts_for_active_node(&store);
    assert_eq!(app.posts.len(), 2);
    app.selected_index = 0;
    app.open_article(&mut store);
    assert_eq!(app.focus, FocusPane::Article);
    assert!(app.posts[0].is_read);
    // Still listed while the article is open.
    assert_eq!(app.posts.len(), 2);
    app.close_article();
    assert_eq!(app.focus, FocusPane::Posts);
    assert_eq!(app.posts.len(), 1);
    assert_eq!(app.posts[0].title, "two");
}

#[test]
fn marking_read_in_fresh_view_removes_immediately() {
    let (mut store, fid) = store_with_feed("General");
    add_post(&mut store, fid, "one", "http://e.com/1", Some(30));
    add_post(&mut store, fid, "two", "http://e.com/2", Some(20));
    let mut app = App::new(&store);
    app.reload_posts_for_active_node(&store);
    app.selected_index = 0;
    app.toggle_read(&mut store);
    assert_eq!(app.posts.len(), 1);
    assert_eq!(app.posts[0].title, "two");
    assert_eq!(app.sidebar.get_count(&NavNode::SmartView(SmartView::Fresh)), 1);
}

#[test]
fn show_read_toggle_lists_everything() {
    let (mut store, fid) = store_with_feed("General");
    add_post(&mut store, fid, "one", "http://e.com/1", Some(30));
    let pid = store.query_posts_by_category(&"General".to_string())[0].id;
    store.set_flag(pid, PostFlag::Read, true);
    let mut app = App::new(&store);
    app.reload_posts_for_active_node(&store);
    assert_eq!(app.posts.len(), 0);
    app.toggle_show_read(&store);
    assert!(app.show_read);
    assert_eq!(app.posts.len(), 1);
    app.toggle_show_read(&store);
    assert!(!app.show_read);
    assert_eq!(app.posts.len(), 0);
}

#[test]
fn confirmation_gate_executes_only_on_affirm() {
    let (mut store, fid) = store_with_feed("General");
    add_post(&mut store, fid, "one", "http://e.com/1", Some(30));
    let mut app = App::new(&store);
    app.active_node = NavNode::Category("General".to_string());
    app.reload_posts_for_active_node(&store);
    let pid = app.posts[0].id;
    app.request_delete_selected_post();
    assert_eq!(
        app.input_mode,
        InputMode::Confirming(ConfirmAction::DeletePost(pid))
    );
    app.confirm_decline();
    assert_eq!(app.input_mode, InputMode::Normal);
    assert_eq!(app.posts.len(), 1);
    assert_eq!(store.get_total_posts_count(), 1);
    // Now affirm a fresh request.
    app.request_delete_selected_post();
    app.confirm_affirm(&mut store);
    assert_eq!(app.input_mode, InputMode::Normal);
    assert_eq!(app.posts.len(), 0);
    assert_eq!(store.get_total_posts_count(), 0);
}

#[test]
fn deleting_general_is_rejected_without_confirmation() {
    let (mut store, _fid) = store_with_feed("General");
    let mut app = App::new(&store);
    app.sidebar.section = SidebarSection::Categories;
    app.sidebar.category_index = app
        .sidebar
        .categories
        .iter()
        .position(|c| c == "General")
        .unwrap();
    app.request_delete_selected_category();
    assert_eq!(app.input_mode, InputMode::Normal);
    assert!(app.message.is_some());
    // The direct path is rejected too.
    app.delete_selected_category(&mut store);
    assert!(store.list_categories().iter().any(|c| c == "General"));
}

#[test]
fn deleting_category_through_gate_updates_sidebar_and_view() {
    let mut store = Store::new();
    store.add_category("Tech".to_string());
    store
        .add_feed_with_category("http://feeds.example/t".to_string(), "Tech".to_string())
        .unwrap();
    let mut app = App::new(&store);
    app.sidebar.section = SidebarSection::Categories;
    app.sidebar.category_index = app
        .sidebar
        .categories
        .iter()
        .position(|c| c == "Tech")
        .unwrap();
    app.request_delete_selected_category();
    assert_eq!(
        app.input_mode,
        InputMode::Confirming(ConfirmAction::DeleteCategory("Tech".to_string()))
    );
    app.confirm_affirm(&mut store);
    assert!(!store.list_categories().iter().any(|c| c == "Tech"));
    assert!(!app.sidebar.categories.iter().any(|c| c == "Tech"));
}

#[test]
fn welcome_screen_on_first_run() {
    let store = Store::new();
    let app = App::new(&store);
    assert_eq!(app.input_mode, InputMode::Welcome);
    assert!(!app.is_loading);
    assert!(app.posts.is_empty());
}

#[test]
fn add_feed_ignores_empty_url() {
    let mut store = Store::new();
    let mut app = App::new(&store);
    app.add_feed(&mut store, "", "General");
    assert_eq!(store.get_total_feeds_count(), 0);
    app.add_feed(&mut store, "http://feeds.example/a", "Tech");
    assert_eq!(store.get_total_feeds_count(), 1);
    assert_eq!(app.feeds.len(), 1);
    assert!(app.sidebar.categories.iter().any(|c| c == "Tech"));
}

#[test]
fn post_cursor_stops_at_both_ends() {
    let (mut store, fid) = store_with_feed("General");
    add_post(&mut store, fid, "one", "http://e.com/1", Some(30));
    add_post(&mut store, fid, "two", "http://e.com/2", Some(20));
    let mut app = App::new(&store);
    app.active_node = NavNode::Category("General".to_string());
    app.reload_posts_for_active_node(&store);
    app.previous_post();
    assert_eq!(app.selected_index, 0);
    app.next_post();
    assert_eq!(app.selected_index, 1);
    app.next_post();
    assert_eq!(app.selected_index, 1);
}

#[test]
fn select_sidebar_item_activates_node_and_focuses_posts() {
    let (mut store, fid) = store_with_feed("General");
    add_post(&mut store, fid, "one", "http://e.com/1", Some(30));
    let mut app = App::new(&store);
    app.sidebar.smart_view_index = 3;
    app.sidebar.next();
    app.select_sidebar_item(&store);
    assert_eq!(app.active_node, NavNode::Category("General".to_string()));
    assert_eq!(app.selected_index, 0);
    assert_eq!(app.focus, FocusPane::Posts);
    assert_eq!(app.posts.len(), 1);
}

#[test]
fn deleting_selected_feed_reloads_everything() {
    let mut store = Store::new();
    let fid = store
        .add_feed_with_category("http://feeds.example/a".to_string(), "General".to_string())
        .unwrap();
    add_post(&mut store, fid, "one", "http://e.com/1", Some(30));
    let mut app = App::new(&store);
    app.active_node = NavNode::Category("General".to_string());
    app.reload_posts_for_active_node(&store);
    assert_eq!(app.posts.len(), 1);
    app.selected_feed_index = 0;
    app.delete_selected_feed(&mut store);
    assert_eq!(store.get_total_feeds_count(), 0);
    assert!(app.feeds.is_empty());
    assert!(app.posts.is_empty());
}

#[test]
fn request_refresh_snapshots_the_feed_list() {
    let mut store = Store::new();
    store
        .add_feed_with_category("http://feeds.example/t".to_string(), "Tech".to_string())
        .unwrap();
    store
        .add_feed_with_category("http://feeds.example/n".to_string(), "News".to_string())
        .unwrap();
    let mut app = App::new(&store);
    app.is_loading = false;
    let snapshot = app.request_refresh(&store, &NavNode::Category("Tech".to_string()));
    assert!(app.is_loading);
    assert_eq!(snapshot.len(), 1);
    assert_eq!(snapshot[0].category, "Tech");
    let everything = app.request_refresh(&store, &NavNode::SmartView(SmartView::Fresh));
    assert_eq!(everything.len(), 2);
}

#[test]
fn category_feed_editing_deletes_and_clamps() {
    let mut store = Store::new();
    for i in 0..3 {
        store
            .add_feed_with_category(format!("http://feeds.example/{}", i), "Tech".to_string())
            .unwrap();
    }
    let mut app = App::new(&store);
    app.load_category_feeds(&store, &"Tech".to_string());
    assert_eq!(app.category_feeds.len(), 3);
    assert_eq!(app.category_feed_index, 0);
    app.next_category_feed();
    app.next_category_feed();
    assert_eq!(app.category_feed_index, 2);
    app.next_category_feed();
    assert_eq!(app.category_feed_index, 2);
    app.delete_category_feed(&mut store);
    assert_eq!(app.category_feeds.len(), 2);
    assert_eq!(app.category_feed_index, 1);
    assert_eq!(store.get_total_feeds_count(), 2);
    app.previous_category_feed();
    assert_eq!(app.category_feed_index, 0);
}

#[test]
fn focus_moves_between_panes() {
    let store = Store::new();
    let mut app = App::new(&store);
    assert_eq!(app.focus, FocusPane::Sidebar);
    app.focus_right();
    assert_eq!(app.focus, FocusPane::Posts);
    app.focus_right();
    assert_eq!(app.focus, FocusPane::Posts);
    app.focus_left();
    assert_eq!(app.focus, FocusPane::Sidebar);
    app.focus_left();
    assert_eq!(app.focus, FocusPane::Sidebar);
}

#[test]
fn staleness_stamp_survives_category_reload_by_name() {
    let mut store = Store::new();
    store.add_category("Tech".to_string());
    let mut app = App::new(&store);
    let tech = NavNode::Category("Tech".to_string());
    app.sidebar.mark_fetched(tech.clone(), 500);
    assert!(!app.sidebar.is_stale(&tech, 520, 60));
    // A reload with a new category keeps Tech's stamp, keyed by name.
    store.add_category("Life".to_string());
    app.refresh_sidebar(&store);
    assert!(!app.sidebar.is_stale(&tech, 520, 60));
    assert!(app.sidebar.is_stale(&NavNode::Category("Life".to_string()), 520, 60));
    // A stamp for a deleted category is gone after the reload.
    store.delete_category(&"Tech".to_string());
    app.refresh_sidebar(&store);
    assert!(app.sidebar.is_stale(&tech, 520, 60));
}

#[test]
fn toggle_read_later_and_archived_follow_membership_rule() {
    let (mut store, fid) = store_with_feed("General");
    add_post(&mut store, fid, "one", "http://e.com/1", Some(30));
    let pid = store.query_posts_by_category(&"General".to_string())[0].id;
    store.set_flag(pid, PostFlag::ReadLater, true);
    store.set_flag(pid, PostFlag::Archived, true);
    let mut app = App::new(&store);
    app.active_node = NavNode::SmartView(SmartView::ReadLater);
    app.reload_posts_for_active_node(&store);
    assert_eq!(app.posts.len(), 1);
    app.toggle_read_later(&mut store);
    assert_eq!(app.posts.len(), 0);
    app.active_node = NavNode::SmartView(SmartView::Archived);
    app.reload_posts_for_active_node(&store);
    assert_eq!(app.posts.len(), 1);
    app.toggle_archived(&mut store);
    assert_eq!(app.posts.len(), 0);
    assert_eq!(app.sidebar.get_count(&NavNode::SmartView(SmartView::Archived)), 0);
}

#[test]
fn copying_a_url_yields_its_base64_payload() {
    let (mut store, fid) = store_with_feed("General");
    add_post(&mut store, fid, "one", "http://e.com/1", Some(30));
    let mut app = App::new(&store);
    app.active_node = NavNode::Category("General".to_string());
    app.reload_posts_for_active_node(&store);
    let payload = app.copy_url_to_clipboard().unwrap();
    assert_eq!(payload, "aHR0cDovL2UuY29tLzE=");
    assert!(app.message.is_some());
    let mut fresh = App::new(&Store::new());
    assert!(fresh.copy_url_to_clipboard().is_none());
}
