//! The interactive engine: the reader's whole view state, the view
//! materializer for the active node, the mutation protocol that keeps the
//! in-memory list and the store consistent, and the reconciliation of
//! background refresh completions with the live view.

use vstd::prelude::*;
use vstd::string::StringExecFns;
use crate::input::TextInput;
use crate::model::{name_in, string_eq, Feed, Post, PostFilter};
use crate::nav::{
    name_index_of, FocusPane, NavNode, NavNodeView, SidebarState, SmartView,
};
use crate::store::{
    has_post, in_cat_pred, is_capped_listing, is_fair_digest, matches_pred, set_flag_spec,
    PostFlag, Store, FRESH_PER_CATEGORY, POST_WINDOW,
};

verus! {

/// A destructive action awaiting explicit confirmation.
#[derive(Debug, Clone, PartialEq)]
pub enum ConfirmAction {
    DeletePost(i64),
    DeleteFeed(i64),
    DeleteCategory(String),
}

/// What the reader's input is currently driving.
#[derive(Debug, Clone, PartialEq)]
pub enum InputMode {
    Normal,
    Welcome,
    AddingFeed,
    AddingCategory,
    SelectingCategory,
    Confirming(ConfirmAction),
    Help,
    EditingCategoryFeeds(String),
}

/// A list cursor is in bounds, resting at zero on an empty list.
pub open spec fn clamped_cursor(i: int, len: int) -> bool {
    i < len || (len == 0 && i == 0)
}

/// Where a cursor lands after its list shrinks to `len` entries.
pub open spec fn clamp_to(i: int, len: int) -> int {
    if i < len {
        i
    } else if len == 0 {
        0
    } else {
        len - 1
    }
}

/// Every sidebar count equals the matching snapshot of the store.
pub open spec fn counts_synced(sb: SidebarState, store: Store) -> bool {
    &&& sb.counts.fresh == store.spec_posts().filter(
        matches_pred(
            (PostFilter {
                only_unread: true,
                only_bookmarked: false,
                only_archived: false,
                only_read_later: false,
            }),
        ),
    ).len()
    &&& sb.counts.starred == store.spec_posts().filter(
        matches_pred(
            (PostFilter {
                only_unread: false,
                only_bookmarked: true,
                only_archived: false,
                only_read_later: false,
            }),
        ),
    ).len()
    &&& sb.counts.read_later == store.spec_posts().filter(
        matches_pred(
            (PostFilter {
                only_unread: false,
                only_bookmarked: false,
                only_archived: false,
                only_read_later: true,
            }),
        ),
    ).len()
    &&& sb.counts.archived == store.spec_posts().filter(
        matches_pred(
            (PostFilter {
                only_unread: false,
                only_bookmarked: false,
                only_archived: true,
                only_read_later: false,
            }),
        ),
    ).len()
    &&& forall|i: int|
        0 <= i < sb.categories@.len() ==> sb.counts.per_category@[i] == store.spec_posts().filter(
            in_cat_pred(store.spec_feeds(), (#[trigger] sb.categories@[i])@),
        ).len()
}

/// The sidebar after a reload from the store: categories reloaded (with a
/// lone "General" synthesized if the store reports none), counts
/// recomputed, per-category staleness stamps carried over by name, and the
/// cursor clamped to the new list.
pub open spec fn sidebar_refreshed(sb0: SidebarState, sb1: SidebarState, store: Store) -> bool {
    &&& sb1.wf()
    &&& (store.spec_categories().len() == 0 ==> sb1.categories@.len() == 1
        && sb1.categories@[0]@ == "General"@)
    &&& (store.spec_categories().len() > 0 ==> sb1.categories@ == store.spec_categories())
    &&& counts_synced(sb1, store)
    &&& sb1.section == sb0.section
    &&& sb1.smart_views@ == sb0.smart_views@
    &&& sb1.smart_view_index == sb0.smart_view_index
    &&& sb1.category_index as int == clamp_to(sb0.category_index as int, sb1.categories@.len() as int)
    &&& sb1.last_fetched.fresh == sb0.last_fetched.fresh
    &&& sb1.last_fetched.starred == sb0.last_fetched.starred
    &&& sb1.last_fetched.read_later == sb0.last_fetched.read_later
    &&& sb1.last_fetched.archived == sb0.last_fetched.archived
    &&& forall|i: int|
        0 <= i < sb1.categories@.len() ==> sb1.last_fetched.per_category@[i] == (if name_in(
            sb0.categories@,
            (#[trigger] sb1.categories@[i])@,
        ) {
            sb0.last_fetched.per_category@[name_index_of(sb0.categories@, sb1.categories@[i]@)]
        } else {
            Option::<u64>::None
        })
}

/// The materialized list for a node: flag
/// views and category views are capped newest-first listings; the fresh
/// view is the fair digest when unread-only, and the uncapped-by-category
/// full listing when showing read posts too.
pub open spec fn is_view_of(
    store: Store,
    node: NavNodeView,
    show_read: bool,
    k: int,
    s: Seq<Post>,
) -> bool {
    match node {
        NavNodeView::Smart(SmartView::Fresh) => if show_read {
            is_capped_listing(
                store.spec_posts(),
                matches_pred(
                    (PostFilter {
                        only_unread: false,
                        only_bookmarked: false,
                        only_archived: false,
                        only_read_later: false,
                    }),
                ),
                POST_WINDOW as int,
                s,
            )
        } else {
            is_fair_digest(
                store.spec_feeds(),
                store.spec_posts(),
                store.spec_categories(),
                k,
                s,
            )
        },
        NavNodeView::Smart(SmartView::Starred) => is_capped_listing(
            store.spec_posts(),
            matches_pred(
                (PostFilter {
                    only_unread: false,
                    only_bookmarked: true,
                    only_archived: false,
                    only_read_later: false,
                }),
            ),
            POST_WINDOW as int,
            s,
        ),
        NavNodeView::Smart(SmartView::ReadLater) => is_capped_listing(
            store.spec_posts(),
            matches_pred(
                (PostFilter {
                    only_unread: false,
                    only_bookmarked: false,
                    only_archived: false,
                    only_read_later: true,
                }),
            ),
            POST_WINDOW as int,
            s,
        ),
        NavNodeView::Smart(SmartView::Archived) => is_capped_listing(
            store.spec_posts(),
            matches_pred(
                (PostFilter {
                    only_unread: false,
                    only_bookmarked: false,
                    only_archived: true,
                    only_read_later: false,
                }),
            ),
            POST_WINDOW as int,
            s,
        ),
        NavNodeView::Category(name) => is_capped_listing(
            store.spec_posts(),
            in_cat_pred(store.spec_feeds(), name),
            POST_WINDOW as int,
            s,
        ),
    }
}

/// The reader's whole interactive state. Background refresh tasks never
/// touch it: they write to the store and signal a completion, which the
/// owning loop hands to `handle_refresh_completion`.
pub struct App {
    pub posts: Vec<Post>,
    pub focus: FocusPane,
    pub sidebar: SidebarState,
    pub active_node: NavNode,
    pub selected_index: usize,
    pub scroll_offset: u16,
    pub exit: bool,
    pub message: Option<String>,
    pub is_loading: bool,
    pub input_mode: InputMode,
    pub text_input: TextInput,
    pub feeds: Vec<Feed>,
    pub selected_feed_index: usize,
    pub show_read: bool,
    pub pending_feed_url: Option<String>,
    pub category_feeds: Vec<Feed>,
    pub category_feed_index: usize,
}

impl App {
    /// Engine invariant: the sidebar and text input are well formed and
    /// every list cursor is clamped to its list.
    pub open spec fn wf(self) -> bool {
        &&& self.sidebar.wf()
        &&& self.text_input.wf()
        &&& clamped_cursor(self.selected_index as int, self.posts@.len() as int)
        &&& clamped_cursor(self.selected_feed_index as int, self.feeds@.len() as int)
        &&& clamped_cursor(self.category_feed_index as int, self.category_feeds@.len() as int)
    }

    /// Start the reader against a store snapshot: feeds and sidebar loaded,
    /// the fresh view active, and — when any feeds exist — its digest
    /// materialized and a first refresh pending; a fresh install starts in
    /// the welcome screen instead.
    pub fn new(store: &Store) -> (r: App)
        requires
            store.wf(),
        ensures
            r.wf(),
            r.feeds@ == store.spec_feeds(),
            r.active_node@ == NavNodeView::Smart(SmartView::Fresh),
            r.selected_index == 0,
            r.show_read == false,
            counts_synced(r.sidebar, *store),
            r.sidebar.categories@.len() > 0,
            store.spec_categories().len() > 0 ==> r.sidebar.categories@
                == store.spec_categories(),
            store.spec_categories().len() == 0 ==> r.sidebar.categories@.len() == 1
                && r.sidebar.categories@[0]@ == "General"@,
            r.focus == FocusPane::Sidebar,
            store.spec_feeds().len() == 0 ==> r.posts@.len() == 0 && r.input_mode
                == InputMode::Welcome && !r.is_loading,
            store.spec_feeds().len() > 0 ==> is_view_of(
                *store,
                NavNodeView::Smart(SmartView::Fresh),
                false,
                FRESH_PER_CATEGORY as int,
                r.posts@,
            ) && r.input_mode == InputMode::Normal && r.is_loading,
    {
        let feeds = store.list_feeds();
        let mut sidebar = SidebarState::new();
        sidebar.load_categories(store);
        sidebar.update_counts(store);

        let is_first_run = feeds.len() == 0;
        let posts: Vec<Post> = if !is_first_run {
            store.get_fresh_feed(FRESH_PER_CATEGORY)
        } else {
            Vec::new()
        };

        App {
            posts,
            focus: FocusPane::Sidebar,
            sidebar,
            active_node: NavNode::SmartView(SmartView::Fresh),
            selected_index: 0,
            scroll_offset: 0,
            exit: false,
            message: None,
            is_loading: !is_first_run,
            input_mode: if is_first_run {
                InputMode::Welcome
            } else {
                InputMode::Normal
            },
            text_input: TextInput::new(),
            feeds,
            selected_feed_index: 0,
            show_read: false,
            pending_feed_url: None,
            category_feeds: Vec::new(),
            category_feed_index: 0,
        }
    }

    /// Re-materialize the list for the active node and clamp the selection
    /// to it. Nothing else changes: selection of a node and loading are
    /// deliberately separate steps.
    pub fn reload_posts_for_active_node(&mut self, store: &Store)
        requires
            old(self).wf(),
            store.wf(),
        ensures
            final(self).wf(),
            is_view_of(
                *store,
                old(self).active_node@,
                old(self).show_read,
                FRESH_PER_CATEGORY as int,
                final(self).posts@,
            ),
            final(self).selected_index as int == clamp_to(
                old(self).selected_index as int,
                final(self).posts@.len() as int,
            ),
            final(self).active_node@ == old(self).active_node@,
            final(self).show_read == old(self).show_read,
            final(self).sidebar == old(self).sidebar,
            final(self).feeds@ == old(self).feeds@,
            final(self).focus == old(self).focus,
            final(self).input_mode == old(self).input_mode,
            final(self).message == old(self).message,
            final(self).is_loading == old(self).is_loading,
            *final(self) == (App {
                posts: final(self).posts,
                selected_index: final(self).selected_index,
                ..*old(self)
            }),
    {
        let node = self.active_node.duplicate();
        let posts: Vec<Post> = match &node {
            NavNode::SmartView(sv) => match sv {
                SmartView::Fresh => {
                    if self.show_read {
                        store.query_posts(
                            &(PostFilter {
                                only_unread: false,
                                only_bookmarked: false,
                                only_archived: false,
                                only_read_later: false,
                            }),
                        )
                    } else {
                        store.get_fresh_feed(FRESH_PER_CATEGORY)
                    }
                },
                SmartView::Starred => store.query_posts(
                    &(PostFilter {
                        only_unread: false,
                        only_bookmarked: true,
                        only_archived: false,
                        only_read_later: false,
                    }),
                ),
                SmartView::ReadLater => store.query_posts(
                    &(PostFilter {
                        only_unread: false,
                        only_bookmarked: false,
                        only_archived: false,
                        only_read_later: true,
                    }),
                ),
                SmartView::Archived => store.query_posts(
                    &(PostFilter {
                        only_unread: false,
                        only_bookmarked: false,
                        only_archived: true,
                        only_read_later: false,
                    }),
                ),
            },
            NavNode::Category(cat) => store.query_posts_by_category(cat),
        };
        self.posts = posts;
        if self.selected_index >= self.posts.len() {
            if self.posts.len() == 0 {
                self.selected_index = 0;
            } else {
                self.selected_index = self.posts.len() - 1;
            }
        }
    }

    /// Reload the sidebar's categories and recompute every aggregate count:
    /// the pull-based snapshot the engine takes after each mutation.
    pub fn refresh_sidebar(&mut self, store: &Store)
        requires
            old(self).wf(),
            store.wf(),
        ensures
            final(self).wf(),
            sidebar_refreshed(old(self).sidebar, final(self).sidebar, *store),
            final(self).posts@ == old(self).posts@,
            final(self).selected_index == old(self).selected_index,
            final(self).active_node@ == old(self).active_node@,
            final(self).show_read == old(self).show_read,
            final(self).feeds@ == old(self).feeds@,
            final(self).focus == old(self).focus,
            final(self).input_mode == old(self).input_mode,
            final(self).message == old(self).message,
            final(self).is_loading == old(self).is_loading,
            *final(self) == (App { sidebar: final(self).sidebar, ..*old(self) }),
    {
        self.sidebar.load_categories(store);
        self.sidebar.update_counts(store);
    }

    /// Select the node under the sidebar cursor, materialize its list, and
    /// move focus to the posts pane with the selection at the top.
    pub fn select_sidebar_item(&mut self, store: &Store)
        requires
            old(self).wf(),
            store.wf(),
        ensures
            final(self).wf(),
            final(self).active_node@ == old(self).sidebar.spec_selected_node(),
            is_view_of(
                *store,
                final(self).active_node@,
                old(self).show_read,
                FRESH_PER_CATEGORY as int,
                final(self).posts@,
            ),
            final(self).selected_index == 0,
            final(self).focus == FocusPane::Posts,
            final(self).sidebar == old(self).sidebar,
            final(self).show_read == old(self).show_read,
            *final(self) == (App {
                active_node: final(self).active_node,
                posts: final(self).posts,
                selected_index: final(self).selected_index,
                focus: final(self).focus,
                ..*old(self)
            }),
    {
        self.active_node = self.sidebar.selected_node();
        self.reload_posts_for_active_node(store);
        self.selected_index = 0;
        self.focus = FocusPane::Posts;
    }

    /// Snapshot the feed list a refresh of `node` must visit: every feed
    /// for a smart view, one category's feeds for a category node.
    pub fn feeds_for_node(store: &Store, node: &NavNode) -> (r: Vec<Feed>)
        requires
            store.wf(),
        ensures
            node@ is Smart ==> r@ == store.spec_feeds(),
            node@ is Category ==> r@ == store.spec_feeds().filter(
                crate::store::feed_in_cat_pred(node@->Category_0),
            ),
    {
        match node {
            NavNode::SmartView(_) => store.list_feeds(),
            NavNode::Category(cat) => store.list_feeds_by_category(cat),
        }
    }

    /// Note a refresh request for `node`: the loading flag turns on, and
    /// the feed list the background task must visit is snapshotted now, at
    /// launch time — it is not re-read mid-flight.
    pub fn request_refresh(&mut self, store: &Store, node: &NavNode) -> (r: Vec<Feed>)
        requires
            old(self).wf(),
            store.wf(),
        ensures
            final(self).wf(),
            *final(self) == (App { is_loading: true, ..*old(self) }),
            node@ is Smart ==> r@ == store.spec_feeds(),
            node@ is Category ==> r@ == store.spec_feeds().filter(
                crate::store::feed_in_cat_pred(node@->Category_0),
            ),
    {
        self.is_loading = true;
        App::feeds_for_node(store, node)
    }

    /// Move the post selection down one entry, stopping at the end.
    pub fn next_post(&mut self)
        requires
            old(self).wf(),
        ensures
            final(self).wf(),
            *final(self) == (App {
                selected_index: (if old(self).selected_index + 1 < old(self).posts@.len() {
                    old(self).selected_index + 1
                } else {
                    old(self).selected_index as int
                }) as usize,
                ..*old(self)
            }),
    {
        let len = self.posts.len();
        if len > 0 && self.selected_index < len - 1 {
            self.selected_index += 1;
        }
    }

    /// Move the post selection up one entry, stopping at the start.
    pub fn previous_post(&mut self)
        requires
            old(self).wf(),
        ensures
            final(self).wf(),
            *final(self) == (App {
                selected_index: (if old(self).selected_index > 0 {
                    old(self).selected_index - 1
                } else {
                    0int
                }) as usize,
                ..*old(self)
            }),
    {
        if self.selected_index > 0 {
            self.selected_index -= 1;
        }
    }

    /// Move focus one pane to the left.
    pub fn focus_left(&mut self)
        ensures
            *final(self) == (App {
                focus: match old(self).focus {
                    FocusPane::Article => FocusPane::Posts,
                    FocusPane::Posts => FocusPane::Sidebar,
                    FocusPane::Sidebar => FocusPane::Sidebar,
                },
                ..*old(self)
            }),
    {
        self.focus = match self.focus {
            FocusPane::Article => FocusPane::Posts,
            FocusPane::Posts => FocusPane::Sidebar,
            FocusPane::Sidebar => FocusPane::Sidebar,
        };
    }

    /// Move focus one pane to the right (the article pane is only entered
    /// by opening an article).
    pub fn focus_right(&mut self)
        ensures
            *final(self) == (App {
                focus: match old(self).focus {
                    FocusPane::Sidebar => FocusPane::Posts,
                    FocusPane::Posts => FocusPane::Posts,
                    FocusPane::Article => FocusPane::Article,
                },
                ..*old(self)
            }),
    {
        self.focus = match self.focus {
            FocusPane::Sidebar => FocusPane::Posts,
            FocusPane::Posts => FocusPane::Posts,
            FocusPane::Article => FocusPane::Article,
        };
    }

    /// Reload the feed list snapshot and clamp its cursor.
    pub fn reload_feeds(&mut self, store: &Store)
        requires
            old(self).wf(),
            store.wf(),
        ensures
            final(self).wf(),
            final(self).feeds@ == store.spec_feeds(),
            final(self).selected_feed_index as int == clamp_to(
                old(self).selected_feed_index as int,
                store.spec_feeds().len() as int,
            ),
            final(self).posts@ == old(self).posts@,
            final(self).selected_index == old(self).selected_index,
            final(self).sidebar == old(self).sidebar,
            final(self).active_node@ == old(self).active_node@,
            final(self).category_feeds@ == old(self).category_feeds@,
            final(self).message == old(self).message,
            *final(self) == (App {
                feeds: final(self).feeds,
                selected_feed_index: final(self).selected_feed_index,
                ..*old(self)
            }),
    {
        self.feeds = store.list_feeds();
        if self.selected_feed_index >= self.feeds.len() {
            if self.feeds.len() == 0 {
                self.selected_feed_index = 0;
            } else {
                self.selected_feed_index = self.feeds.len() - 1;
            }
        }
    }

    /// Load the feeds of one category for editing, cursor at the top.
    pub fn load_category_feeds(&mut self, store: &Store, category: &String)
        requires
            old(self).wf(),
            store.wf(),
        ensures
            final(self).wf(),
            final(self).category_feeds@ == store.spec_feeds().filter(
                crate::store::feed_in_cat_pred(category@),
            ),
            final(self).category_feed_index == 0,
            final(self).posts@ == old(self).posts@,
            final(self).feeds@ == old(self).feeds@,
            final(self).sidebar == old(self).sidebar,
            *final(self) == (App {
                category_feeds: final(self).category_feeds,
                category_feed_index: final(self).category_feed_index,
                ..*old(self)
            }),
    {
        self.category_feeds = store.list_feeds_by_category(category);
        self.category_feed_index = 0;
    }

    /// Move the category-feed cursor down one entry, stopping at the end.
    pub fn next_category_feed(&mut self)
        requires
            old(self).wf(),
        ensures
            final(self).wf(),
            *final(self) == (App {
                category_feed_index: (if old(self).category_feed_index + 1 < old(self).category_feeds@.len() {
                    old(self).category_feed_index + 1
                } else {
                    old(self).category_feed_index as int
                }) as usize,
                ..*old(self)
            }),
    {
        let len = self.category_feeds.len();
        if len > 0 && self.category_feed_index < len - 1 {
            self.category_feed_index += 1;
        }
    }

    /// Move the category-feed cursor up one entry, stopping at the start.
    pub fn previous_category_feed(&mut self)
        requires
            old(self).wf(),
        ensures
            final(self).wf(),
            *final(self) == (App {
                category_feed_index: (if old(self).category_feed_index > 0 {
                    old(self).category_feed_index - 1
                } else {
                    0int
                }) as usize,
                ..*old(self)
            }),
    {
        if self.category_feed_index > 0 {
            self.category_feed_index -= 1;
        }
    }

    /// The category under the sidebar's category cursor, defaulting to
    /// "General" when the list is empty.
    pub fn get_selected_category(&self) -> (r: String)
        requires
            self.wf(),
        ensures
            self.sidebar.categories@.len() > 0 ==> r == self.sidebar.categories@[self.sidebar.category_index as int],
            self.sidebar.categories@.len() == 0 ==> r@ == "General"@,
    {
        if self.sidebar.category_index < self.sidebar.categories.len() {
            self.sidebar.categories[self.sidebar.category_index].clone()
        } else {
            "General".to_owned()
        }
    }

    /// Flip the fresh view between unread-only and everything, and
    /// re-materialize.
    pub fn toggle_show_read(&mut self, store: &Store)
        requires
            old(self).wf(),
            store.wf(),
        ensures
            final(self).wf(),
            final(self).show_read == !old(self).show_read,
            is_view_of(
                *store,
                old(self).active_node@,
                !old(self).show_read,
                FRESH_PER_CATEGORY as int,
                final(self).posts@,
            ),
            final(self).message is Some,
            final(self).active_node@ == old(self).active_node@,
            final(self).sidebar == old(self).sidebar,
            *final(self) == (App {
                show_read: final(self).show_read,
                posts: final(self).posts,
                selected_index: final(self).selected_index,
                message: final(self).message,
                ..*old(self)
            }),
    {
        self.show_read = !self.show_read;
        self.reload_posts_for_active_node(store);
        self.message = Some(
            if self.show_read {
                "Showing all posts".to_owned()
            } else {
                "Showing unread only".to_owned()
            },
        );
    }
}


impl App {
    /// Remove every read post from the in-memory list, preferring to keep
    /// the identity (not the position) of the previously selected post when
    /// it survives the sweep.
    fn remove_read_posts(&mut self)
        requires
            old(self).wf(),
        ensures
            final(self).wf(),
            final(self).posts@ == old(self).posts@.filter(|p: Post| !p.is_read),
            old(self).posts@.len() > 0 && has_post(
                final(self).posts@,
                old(self).posts@[old(self).selected_index as int].id,
            ) ==> final(self).posts@[final(self).selected_index as int].id == old(self).posts@[old(self).selected_index as int].id,
            *final(self) == (App {
                posts: final(self).posts,
                selected_index: final(self).selected_index,
                ..*old(self)
            }),
    {
        let had: Option<i64> = if self.posts.len() > 0 {
            Some(self.posts[self.selected_index].id)
        } else {
            None
        };
        let ghost posts0 = self.posts@;
        let mut kept: Vec<Post> = Vec::new();
        let mut i: usize = 0;
        proof {
            assert(posts0.take(0int).filter(|p: Post| !p.is_read) == Seq::<Post>::empty());
        }
        while i < self.posts.len()
            invariant
                i <= posts0.len(),
                posts0 == self.posts@,
                kept@ == posts0.take(i as int).filter(|p: Post| !p.is_read),
            decreases posts0.len() - i,
        {
            if !self.posts[i].is_read {
                kept.push(self.posts[i].duplicate());
            }
            proof {
                broadcast use Seq::lemma_filter_push;

                assert(posts0.take(i + 1).drop_last() == posts0.take(i as int));
                assert(posts0.take(i + 1) == posts0.take(i as int).push(posts0[i as int]));
            }
            i += 1;
        }
        proof {
            assert(posts0.take(posts0.len() as int) == posts0);
        }
        self.posts = kept;
        let mut newsel: usize = 0;
        match had {
            Some(oid) => {
                let mut j: usize = 0;
                let mut found = false;
                while j < self.posts.len()
                    invariant
                        j <= self.posts@.len(),
                        !found ==> forall|t: int|
                            0 <= t < j ==> (#[trigger] self.posts@[t]).id != oid,
                        found ==> newsel < self.posts@.len() && self.posts@[newsel as int].id
                            == oid,
                        newsel < self.posts@.len() || newsel == 0,
                    decreases self.posts@.len() - j,
                {
                    if !found && self.posts[j].id == oid {
                        newsel = j;
                        found = true;
                    }
                    j += 1;
                }
                proof {
                    if !found && has_post(self.posts@, oid) {
                        let w = choose|w: int|
                            0 <= w < self.posts@.len() && (#[trigger] self.posts@[w]).id
                                == oid;
                        assert(false);
                    }
                }
            },
            None => {},
        }
        self.selected_index = newsel;
        if self.selected_index >= self.posts.len() {
            if self.posts.len() == 0 {
                self.selected_index = 0;
            } else {
                self.selected_index = self.posts.len() - 1;
            }
        }
    }

    /// Open the selected article: it is always marked read, in the store
    /// and in place. In the unread-only fresh view its removal from the
    /// list is deferred until the article closes, so the list does not
    /// shift under the reader; only the sidebar counts are refreshed now.
    pub fn open_article(&mut self, store: &mut Store)
        requires
            old(self).wf(),
            old(store).wf(),
        ensures
            final(self).wf(),
            final(store).wf(),
            *final(self) == (App {
                posts: final(self).posts,
                focus: final(self).focus,
                scroll_offset: final(self).scroll_offset,
                sidebar: final(self).sidebar,
                ..*old(self)
            }),
            old(self).posts@.len() == 0 ==> *final(self) == *old(self) && *final(store) == *old(store),
            old(self).posts@.len() > 0 ==> ({
                let p = old(self).posts@[old(self).selected_index as int];
                &&& final(store).spec_posts() == set_flag_spec(
                    old(store).spec_posts(),
                    p.id,
                    PostFlag::Read,
                    true,
                )
                &&& final(store).spec_feeds() == old(store).spec_feeds()
                &&& final(store).spec_explicit_categories() == old(store).spec_explicit_categories()
                &&& final(self).posts@ == old(self).posts@.update(
                    old(self).selected_index as int,
                    (Post { is_read: true, ..p }),
                )
                &&& final(self).selected_index == old(self).selected_index
                &&& final(self).focus == FocusPane::Article
                &&& final(self).scroll_offset == 0
                &&& final(self).active_node@ == old(self).active_node@
                &&& final(self).show_read == old(self).show_read
                &&& (!old(self).show_read && old(self).active_node@ == NavNodeView::Smart(
                    SmartView::Fresh,
                ) ==> sidebar_refreshed(old(self).sidebar, final(self).sidebar, *final(store)))
                &&& (!(!old(self).show_read && old(self).active_node@ == NavNodeView::Smart(
                    SmartView::Fresh,
                )) ==> final(self).sidebar == old(self).sidebar)
            }),
    {
        if self.posts.len() == 0 {
            return ;
        }
        let i = self.selected_index;
        let p = self.posts[i].duplicate();
        store.set_flag(p.id, PostFlag::Read, true);
        let q = Post { is_read: true, ..p };
        self.posts.set(i, q);
        self.focus = FocusPane::Article;
        self.scroll_offset = 0;
        let fresh_active = match &self.active_node {
            NavNode::SmartView(SmartView::Fresh) => true,
            _ => false,
        };
        if !self.show_read && fresh_active {
            self.refresh_sidebar(store);
        }
    }

    /// Close the article pane. In the unread-only fresh view this is where
    /// the deferred removal of read posts happens, preserving the identity
    /// of the selected post when it is still unread.
    pub fn close_article(&mut self)
        requires
            old(self).wf(),
        ensures
            final(self).wf(),
            *final(self) == (App {
                posts: final(self).posts,
                selected_index: final(self).selected_index,
                focus: final(self).focus,
                scroll_offset: final(self).scroll_offset,
                ..*old(self)
            }),
            final(self).focus == FocusPane::Posts,
            final(self).scroll_offset == 0,
            (!old(self).show_read && old(self).active_node@ == NavNodeView::Smart(
                SmartView::Fresh,
            )) ==> ({
                &&& final(self).posts@ == old(self).posts@.filter(|p: Post| !p.is_read)
                &&& (old(self).posts@.len() > 0 && has_post(
                    final(self).posts@,
                    old(self).posts@[old(self).selected_index as int].id,
                ) ==> final(self).posts@[final(self).selected_index as int].id == old(self).posts@[old(self).selected_index as int].id)
            }),
            (!(!old(self).show_read && old(self).active_node@ == NavNodeView::Smart(
                SmartView::Fresh,
            ))) ==> final(self).posts@ == old(self).posts@ && final(self).selected_index == old(self).selected_index,
            final(self).sidebar == old(self).sidebar,
            final(self).active_node@ == old(self).active_node@,
            final(self).show_read == old(self).show_read,
            final(self).message == old(self).message,
    {
        self.focus = FocusPane::Posts;
        self.scroll_offset = 0;
        let fresh_active = match &self.active_node {
            NavNode::SmartView(SmartView::Fresh) => true,
            _ => false,
        };
        if !self.show_read && fresh_active {
            self.remove_read_posts();
        }
    }

    /// Toggle the selected post's starred flag: the store is written, the
    /// in-memory post updated, and — per the membership rule — the post
    /// leaves the list immediately only when un-starring inside the
    /// Starred view, with the selection re-clamped.
    pub fn toggle_bookmark(&mut self, store: &mut Store)
        requires
            old(self).wf(),
            old(store).wf(),
        ensures
            final(self).wf(),
            final(store).wf(),
            *final(self) == (App {
                posts: final(self).posts,
                selected_index: final(self).selected_index,
                message: final(self).message,
                sidebar: final(self).sidebar,
                ..*old(self)
            }),
            old(self).posts@.len() == 0 ==> *final(self) == *old(self) && *final(store) == *old(store),
            old(self).posts@.len() > 0 ==> ({
                let p = old(self).posts@[old(self).selected_index as int];
                let newv = !p.is_bookmarked;
                &&& final(store).spec_posts() == set_flag_spec(
                    old(store).spec_posts(),
                    p.id,
                    PostFlag::Bookmarked,
                    newv,
                )
                &&& final(store).spec_feeds() == old(store).spec_feeds()
                &&& final(store).spec_explicit_categories() == old(store).spec_explicit_categories()
                &&& (if !newv && old(self).active_node@ == NavNodeView::Smart(
                    SmartView::Starred,
                ) {
                    final(self).posts@ == old(self).posts@.remove(
                        old(self).selected_index as int,
                    ) && final(self).selected_index as int == clamp_to(
                        old(self).selected_index as int,
                        final(self).posts@.len() as int,
                    )
                } else {
                    final(self).posts@ == old(self).posts@.update(
                        old(self).selected_index as int,
                        (Post { is_bookmarked: newv, ..p }),
                    ) && final(self).selected_index == old(self).selected_index
                })
                &&& sidebar_refreshed(old(self).sidebar, final(self).sidebar, *final(store))
                &&& final(self).message is Some
                &&& final(self).active_node@ == old(self).active_node@
                &&& final(self).show_read == old(self).show_read
                &&& final(self).feeds@ == old(self).feeds@
            }),
    {
        if self.posts.len() == 0 {
            return ;
        }
        let i = self.selected_index;
        let p = self.posts[i].duplicate();
        let newv = !p.is_bookmarked;
        store.set_flag(p.id, PostFlag::Bookmarked, newv);
        let q = Post { is_bookmarked: newv, ..p };
        self.posts.set(i, q);
        self.message = Some(
            if newv {
                "\u{2605} Added to Starred".to_owned()
            } else {
                "Removed from Starred".to_owned()
            },
        );
        let starred_active = match &self.active_node {
            NavNode::SmartView(SmartView::Starred) => true,
            _ => false,
        };
        if !newv && starred_active {
            self.posts.remove(i);
            proof {
                assert(self.posts@ =~= old(self).posts@.remove(i as int));
            }
            if self.selected_index >= self.posts.len() {
                if self.posts.len() == 0 {
                    self.selected_index = 0;
                } else {
                    self.selected_index = self.posts.len() - 1;
                }
            }
        }
        self.refresh_sidebar(store);
    }

    /// Toggle the selected post's archived flag, removing it from the list
    /// immediately only when un-archiving inside the Archived view.
    pub fn toggle_archived(&mut self, store: &mut Store)
        requires
            old(self).wf(),
            old(store).wf(),
        ensures
            final(self).wf(),
            final(store).wf(),
            *final(self) == (App {
                posts: final(self).posts,
                selected_index: final(self).selected_index,
                message: final(self).message,
                sidebar: final(self).sidebar,
                ..*old(self)
            }),
            old(self).posts@.len() == 0 ==> *final(self) == *old(self) && *final(store) == *old(store),
            old(self).posts@.len() > 0 ==> ({
                let p = old(self).posts@[old(self).selected_index as int];
                let newv = !p.is_archived;
                &&& final(store).spec_posts() == set_flag_spec(
                    old(store).spec_posts(),
                    p.id,
                    PostFlag::Archived,
                    newv,
                )
                &&& final(store).spec_feeds() == old(store).spec_feeds()
                &&& final(store).spec_explicit_categories() == old(store).spec_explicit_categories()
                &&& (if !newv && old(self).active_node@ == NavNodeView::Smart(
                    SmartView::Archived,
                ) {
                    final(self).posts@ == old(self).posts@.remove(
                        old(self).selected_index as int,
                    ) && final(self).selected_index as int == clamp_to(
                        old(self).selected_index as int,
                        final(self).posts@.len() as int,
                    )
                } else {
                    final(self).posts@ == old(self).posts@.update(
                        old(self).selected_index as int,
                        (Post { is_archived: newv, ..p }),
                    ) && final(self).selected_index == old(self).selected_index
                })
                &&& sidebar_refreshed(old(self).sidebar, final(self).sidebar, *final(store))
                &&& final(self).message is Some
                &&& final(self).active_node@ == old(self).active_node@
                &&& final(self).show_read == old(self).show_read
                &&& final(self).feeds@ == old(self).feeds@
            }),
    {
        if self.posts.len() == 0 {
            return ;
        }
        let i = self.selected_index;
        let p = self.posts[i].duplicate();
        let newv = !p.is_archived;
        store.set_flag(p.id, PostFlag::Archived, newv);
        let q = Post { is_archived: newv, ..p };
        self.posts.set(i, q);
        self.message = Some(
            if newv {
                "Archived".to_owned()
            } else {
                "Unarchived".to_owned()
            },
        );
        let archived_active = match &self.active_node {
            NavNode::SmartView(SmartView::Archived) => true,
            _ => false,
        };
        if !newv && archived_active {
            self.posts.remove(i);
            proof {
                assert(self.posts@ =~= old(self).posts@.remove(i as int));
            }
            if self.selected_index >= self.posts.len() {
                if self.posts.len() == 0 {
                    self.selected_index = 0;
                } else {
                    self.selected_index = self.posts.len() - 1;
                }
            }
        }
        self.refresh_sidebar(store);
    }

    /// Toggle the selected post's read-later flag, removing it from the
    /// list immediately only when clearing it inside the Read Later view.
    pub fn toggle_read_later(&mut self, store: &mut Store)
        requires
            old(self).wf(),
            old(store).wf(),
        ensures
            final(self).wf(),
            final(store).wf(),
            *final(self) == (App {
                posts: final(self).posts,
                selected_index: final(self).selected_index,
                message: final(self).message,
                sidebar: final(self).sidebar,
                ..*old(self)
            }),
            old(self).posts@.len() == 0 ==> *final(self) == *old(self) && *final(store) == *old(store),
            old(self).posts@.len() > 0 ==> ({
                let p = old(self).posts@[old(self).selected_index as int];
                let newv = !p.is_read_later;
                &&& final(store).spec_posts() == set_flag_spec(
                    old(store).spec_posts(),
                    p.id,
                    PostFlag::ReadLater,
                    newv,
                )
                &&& final(store).spec_feeds() == old(store).spec_feeds()
                &&& final(store).spec_explicit_categories() == old(store).spec_explicit_categories()
                &&& (if !newv && old(self).active_node@ == NavNodeView::Smart(
                    SmartView::ReadLater,
                ) {
                    final(self).posts@ == old(self).posts@.remove(
                        old(self).selected_index as int,
                    ) && final(self).selected_index as int == clamp_to(
                        old(self).selected_index as int,
                        final(self).posts@.len() as int,
                    )
                } else {
                    final(self).posts@ == old(self).posts@.update(
                        old(self).selected_index as int,
                        (Post { is_read_later: newv, ..p }),
                    ) && final(self).selected_index == old(self).selected_index
                })
                &&& sidebar_refreshed(old(self).sidebar, final(self).sidebar, *final(store))
                &&& final(self).message is Some
                &&& final(self).active_node@ == old(self).active_node@
                &&& final(self).show_read == old(self).show_read
                &&& final(self).feeds@ == old(self).feeds@
            }),
    {
        if self.posts.len() == 0 {
            return ;
        }
        let i = self.selected_index;
        let p = self.posts[i].duplicate();
        let newv = !p.is_read_later;
        store.set_flag(p.id, PostFlag::ReadLater, newv);
        let q = Post { is_read_later: newv, ..p };
        self.posts.set(i, q);
        self.message = Some(
            if newv {
                "Added to Read Later".to_owned()
            } else {
                "Removed from Read Later".to_owned()
            },
        );
        let read_later_active = match &self.active_node {
            NavNode::SmartView(SmartView::ReadLater) => true,
            _ => false,
        };
        if !newv && read_later_active {
            self.posts.remove(i);
            proof {
                assert(self.posts@ =~= old(self).posts@.remove(i as int));
            }
            if self.selected_index >= self.posts.len() {
                if self.posts.len() == 0 {
                    self.selected_index = 0;
                } else {
                    self.selected_index = self.posts.len() - 1;
                }
            }
        }
        self.refresh_sidebar(store);
    }

    /// Toggle the selected post between read and unread, removing it from
    /// the list immediately only when marking it read inside the
    /// unread-only fresh view.
    pub fn toggle_read(&mut self, store: &mut Store)
        requires
            old(self).wf(),
            old(store).wf(),
        ensures
            final(self).wf(),
            final(store).wf(),
            *final(self) == (App {
                posts: final(self).posts,
                selected_index: final(self).selected_index,
                message: final(self).message,
                sidebar: final(self).sidebar,
                ..*old(self)
            }),
            old(self).posts@.len() == 0 ==> *final(self) == *old(self) && *final(store) == *old(store),
            old(self).posts@.len() > 0 ==> ({
                let p = old(self).posts@[old(self).selected_index as int];
                let newv = !p.is_read;
                &&& final(store).spec_posts() == set_flag_spec(
                    old(store).spec_posts(),
                    p.id,
                    PostFlag::Read,
                    newv,
                )
                &&& final(store).spec_feeds() == old(store).spec_feeds()
                &&& final(store).spec_explicit_categories() == old(store).spec_explicit_categories()
                &&& (if newv && !old(self).show_read && old(self).active_node@
                    == NavNodeView::Smart(SmartView::Fresh) {
                    final(self).posts@ == old(self).posts@.remove(
                        old(self).selected_index as int,
                    ) && final(self).selected_index as int == clamp_to(
                        old(self).selected_index as int,
                        final(self).posts@.len() as int,
                    )
                } else {
                    final(self).posts@ == old(self).posts@.update(
                        old(self).selected_index as int,
                        (Post { is_read: newv, ..p }),
                    ) && final(self).selected_index == old(self).selected_index
                })
                &&& sidebar_refreshed(old(self).sidebar, final(self).sidebar, *final(store))
                &&& final(self).message is Some
                &&& final(self).active_node@ == old(self).active_node@
                &&& final(self).show_read == old(self).show_read
                &&& final(self).feeds@ == old(self).feeds@
            }),
    {
        if self.posts.len() == 0 {
            return ;
        }
        let i = self.selected_index;
        let p = self.posts[i].duplicate();
        let newv = !p.is_read;
        store.set_flag(p.id, PostFlag::Read, newv);
        let q = Post { is_read: newv, ..p };
        self.posts.set(i, q);
        self.message = Some(
            if newv {
                "Marked as read".to_owned()
            } else {
                "Marked as unread".to_owned()
            },
        );
        let fresh_active = match &self.active_node {
            NavNode::SmartView(SmartView::Fresh) => true,
            _ => false,
        };
        if newv && !self.show_read && fresh_active {
            self.posts.remove(i);
            proof {
                assert(self.posts@ =~= old(self).posts@.remove(i as int));
            }
            if self.selected_index >= self.posts.len() {
                if self.posts.len() == 0 {
                    self.selected_index = 0;
                } else {
                    self.selected_index = self.posts.len() - 1;
                }
            }
        }
        self.refresh_sidebar(store);
    }
}


impl App {
    /// Delete the selected post: the store row is removed, then — on
    /// success only — the post leaves the in-memory list with the selection
    /// re-clamped, and the aggregates are recomputed.
    pub fn delete_selected_post(&mut self, store: &mut Store)
        requires
            old(self).wf(),
            old(store).wf(),
        ensures
            final(self).wf(),
            final(store).wf(),
            *final(self) == (App {
                posts: final(self).posts,
                selected_index: final(self).selected_index,
                message: final(self).message,
                sidebar: final(self).sidebar,
                ..*old(self)
            }),
            old(self).posts@.len() == 0 ==> *final(self) == *old(self) && *final(store) == *old(store),
            old(self).posts@.len() > 0 ==> ({
                let pid = old(self).posts@[old(self).selected_index as int].id;
                &&& final(store).spec_feeds() == old(store).spec_feeds()
                &&& final(store).spec_explicit_categories() == old(store).spec_explicit_categories()
                &&& (if has_post(old(store).spec_posts(), pid) {
                    final(store).spec_posts() == old(store).spec_posts().remove(
                        crate::store::post_index_of(old(store).spec_posts(), pid),
                    ) && final(self).posts@ == old(self).posts@.remove(
                        old(self).selected_index as int,
                    ) && final(self).selected_index as int == clamp_to(
                        old(self).selected_index as int,
                        final(self).posts@.len() as int,
                    ) && sidebar_refreshed(old(self).sidebar, final(self).sidebar, *final(store))
                        && final(self).message is Some
                } else {
                    *final(self) == *old(self) && final(store).spec_posts() == old(store).spec_posts()
                })
            }),
    {
        if self.posts.len() == 0 {
            return ;
        }
        let i = self.selected_index;
        let pid = self.posts[i].id;
        let title = self.posts[i].title.clone();
        let ok = store.delete_post(pid);
        if ok {
            self.posts.remove(i);
            if self.selected_index >= self.posts.len() {
                if self.posts.len() == 0 {
                    self.selected_index = 0;
                } else {
                    self.selected_index = self.posts.len() - 1;
                }
            }
            self.refresh_sidebar(store);
            let shortened = crate::model::truncate_str(title.as_str(), 30);
            self.message = Some("Deleted: ".to_owned().concat(shortened.as_str()));
        }
    }

    /// Unsubscribe the selected feed: the store cascades to its posts, and
    /// the feed list, aggregates, and active view are all reloaded.
    pub fn delete_selected_feed(&mut self, store: &mut Store)
        requires
            old(self).wf(),
            old(store).wf(),
        ensures
            final(self).wf(),
            final(store).wf(),
            *final(self) == (App {
                feeds: final(self).feeds,
                selected_feed_index: final(self).selected_feed_index,
                posts: final(self).posts,
                selected_index: final(self).selected_index,
                sidebar: final(self).sidebar,
                message: final(self).message,
                ..*old(self)
            }),
            old(self).feeds@.len() == 0 ==> *final(self) == *old(self) && *final(store) == *old(store),
            old(self).feeds@.len() > 0 ==> ({
                let fid = old(self).feeds@[old(self).selected_feed_index as int].id;
                &&& final(store).spec_feeds() == old(store).spec_feeds().filter(
                    |f: Feed| f.id != fid,
                )
                &&& final(store).spec_posts() == old(store).spec_posts().filter(
                    |p: Post| p.feed_id != fid,
                )
                &&& final(store).spec_explicit_categories() == old(store).spec_explicit_categories()
                &&& final(self).feeds@ == final(store).spec_feeds()
                &&& sidebar_refreshed(old(self).sidebar, final(self).sidebar, *final(store))
                &&& is_view_of(
                    *final(store),
                    old(self).active_node@,
                    old(self).show_read,
                    FRESH_PER_CATEGORY as int,
                    final(self).posts@,
                )
                &&& final(self).message is Some
                &&& final(self).active_node@ == old(self).active_node@
            }),
    {
        if self.feeds.len() == 0 {
            return ;
        }
        let fid = self.feeds[self.selected_feed_index].id;
        let url = self.feeds[self.selected_feed_index].url.clone();
        store.delete_feed(fid);
        self.reload_feeds(store);
        self.refresh_sidebar(store);
        self.reload_posts_for_active_node(store);
        let shortened = crate::model::truncate_str(url.as_str(), 30);
        self.message = Some("Deleted feed: ".to_owned().concat(shortened.as_str()));
    }

    /// Unsubscribe the feed under the category-editing cursor, keeping the
    /// editing list, the feed list, and the aggregates consistent.
    pub fn delete_category_feed(&mut self, store: &mut Store)
        requires
            old(self).wf(),
            old(store).wf(),
        ensures
            final(self).wf(),
            final(store).wf(),
            *final(self) == (App {
                category_feeds: final(self).category_feeds,
                category_feed_index: final(self).category_feed_index,
                feeds: final(self).feeds,
                selected_feed_index: final(self).selected_feed_index,
                sidebar: final(self).sidebar,
                message: final(self).message,
                ..*old(self)
            }),
            old(self).category_feeds@.len() == 0 ==> *final(self) == *old(self) && *final(store)
                == *old(store),
            old(self).category_feeds@.len() > 0 ==> ({
                let fid = old(self).category_feeds@[old(self).category_feed_index as int].id;
                &&& final(store).spec_feeds() == old(store).spec_feeds().filter(
                    |f: Feed| f.id != fid,
                )
                &&& final(store).spec_posts() == old(store).spec_posts().filter(
                    |p: Post| p.feed_id != fid,
                )
                &&& final(self).category_feeds@ == old(self).category_feeds@.remove(
                    old(self).category_feed_index as int,
                )
                &&& final(self).category_feed_index as int == clamp_to(
                    old(self).category_feed_index as int,
                    final(self).category_feeds@.len() as int,
                )
                &&& final(self).feeds@ == final(store).spec_feeds()
                &&& sidebar_refreshed(old(self).sidebar, final(self).sidebar, *final(store))
                &&& final(self).message is Some
            }),
    {
        if self.category_feeds.len() == 0 {
            return ;
        }
        let i = self.category_feed_index;
        let fid = self.category_feeds[i].id;
        let label = match &self.category_feeds[i].title {
            Some(t) => t.clone(),
            None => self.category_feeds[i].url.clone(),
        };
        store.delete_feed(fid);
        self.category_feeds.remove(i);
        if self.category_feed_index >= self.category_feeds.len() {
            if self.category_feeds.len() == 0 {
                self.category_feed_index = 0;
            } else {
                self.category_feed_index = self.category_feeds.len() - 1;
            }
        }
        self.reload_feeds(store);
        self.refresh_sidebar(store);
        let shortened = crate::model::truncate_str(label.as_str(), 30);
        self.message = Some("Deleted feed: ".to_owned().concat(shortened.as_str()));
    }

    /// Subscribe a feed (the caller hands the URL already trimmed): an
    /// empty URL is ignored; otherwise the subscription is created or
    /// found, and the feed list and aggregates reloaded.
    pub fn add_feed(&mut self, store: &mut Store, url: &str, category: &str)
        requires
            old(self).wf(),
            old(store).wf(),
        ensures
            final(self).wf(),
            final(store).wf(),
            *final(self) == (App {
                feeds: final(self).feeds,
                selected_feed_index: final(self).selected_feed_index,
                sidebar: final(self).sidebar,
                message: final(self).message,
                ..*old(self)
            }),
            url@.len() == 0 ==> *final(self) == *old(self) && *final(store) == *old(store),
            url@.len() > 0 ==> ({
                let feeds0 = old(store).spec_feeds();
                &&& final(store).spec_posts() == old(store).spec_posts()
                &&& final(store).spec_explicit_categories() == old(store).spec_explicit_categories()
                &&& (if exists|i: int|
                    0 <= i < feeds0.len() && (#[trigger] feeds0[i]).url@ == url@ {
                    final(store).spec_feeds() == feeds0
                } else if old(store).spec_next_feed_id() == i64::MAX {
                    final(store).spec_feeds() == feeds0
                } else {
                    final(store).spec_feeds().len() == feeds0.len() + 1 && final(store).spec_feeds().last().url@ == url@ && final(store).spec_feeds().last().category@ == category@
                })
                &&& final(self).feeds@ == final(store).spec_feeds()
                &&& sidebar_refreshed(old(self).sidebar, final(self).sidebar, *final(store))
                &&& final(self).message is Some
            }),
    {
        if url.is_empty() {
            return ;
        }
        store.add_feed_with_category(url.to_owned(), category.to_owned());
        self.reload_feeds(store);
        self.refresh_sidebar(store);
        let shortened = crate::model::truncate_str(url, 40);
        self.message = Some("Added feed: ".to_owned().concat(shortened.as_str()));
    }

    /// Create a category (the caller hands the name already trimmed): an
    /// empty name is ignored; an existing name is kept as is.
    pub fn add_category(&mut self, store: &mut Store, name: &str)
        requires
            old(self).wf(),
            old(store).wf(),
        ensures
            final(self).wf(),
            final(store).wf(),
            *final(self) == (App {
                sidebar: final(self).sidebar,
                message: final(self).message,
                ..*old(self)
            }),
            name@.len() == 0 ==> *final(self) == *old(self) && *final(store) == *old(store),
            name@.len() > 0 ==> ({
                &&& final(store).spec_posts() == old(store).spec_posts()
                &&& final(store).spec_feeds() == old(store).spec_feeds()
                &&& (if name_in(old(store).spec_explicit_categories(), name@) {
                    final(store).spec_explicit_categories() == old(store).spec_explicit_categories()
                } else {
                    final(store).spec_explicit_categories().len() == old(store).spec_explicit_categories().len() + 1 && final(store).spec_explicit_categories().last()@ == name@
                })
                &&& sidebar_refreshed(old(self).sidebar, final(self).sidebar, *final(store))
                &&& final(self).message is Some
            }),
    {
        if name.is_empty() {
            return ;
        }
        store.add_category(name.to_owned());
        self.refresh_sidebar(store);
        self.message = Some("Added category: ".to_owned().concat(name));
    }

    /// Delete the category under the sidebar cursor. "General" is rejected
    /// unconditionally with a visible notice; otherwise its feeds are
    /// re-filed under "General", the name leaves the category list, and the
    /// sidebar and active view are reloaded.
    pub fn delete_selected_category(&mut self, store: &mut Store)
        requires
            old(self).wf(),
            old(store).wf(),
        ensures
            final(self).wf(),
            final(store).wf(),
            *final(self) == (App {
                sidebar: final(self).sidebar,
                posts: final(self).posts,
                selected_index: final(self).selected_index,
                message: final(self).message,
                ..*old(self)
            }),
            old(self).sidebar.categories@.len() == 0 ==> *final(self) == *old(self) && *final(store) == *old(store),
            old(self).sidebar.categories@.len() > 0 ==> ({
                let cat = old(self).sidebar.categories@[old(self).sidebar.category_index as int]@;
                if cat == "General"@ {
                    *final(store) == *old(store) && (final(self).message matches Some(m)
                        && m@ == "Cannot delete 'General' category"@) && final(self).posts@
                        == old(self).posts@ && final(self).sidebar == old(self).sidebar
                } else {
                    &&& final(store).spec_posts() == old(store).spec_posts()
                    &&& !name_in(final(store).spec_categories(), cat)
                    &&& sidebar_refreshed(old(self).sidebar, final(self).sidebar, *final(store))
                    &&& is_view_of(
                        *final(store),
                        old(self).active_node@,
                        old(self).show_read,
                        FRESH_PER_CATEGORY as int,
                        final(self).posts@,
                    )
                    &&& final(self).message is Some
                }
            }),
    {
        if self.sidebar.categories.len() == 0 {
            return ;
        }
        let idx = if self.sidebar.category_index < self.sidebar.categories.len() {
            self.sidebar.category_index
        } else {
            0
        };
        let cat = self.sidebar.categories[idx].clone();
        let general = "General".to_owned();
        if string_eq(&cat, &general) {
            self.message = Some("Cannot delete 'General' category".to_owned());
        } else {
            store.delete_category(&cat);
            self.refresh_sidebar(store);
            self.reload_posts_for_active_node(store);
            self.message = Some(
                "Deleted category: ".to_owned().concat(cat.as_str()),
            );
        }
    }

    /// Ask to delete the selected post: a confirmation becomes pending and
    /// nothing is deleted yet.
    pub fn request_delete_selected_post(&mut self)
        requires
            old(self).wf(),
        ensures
            final(self).wf(),
            old(self).posts@.len() == 0 ==> *final(self) == *old(self),
            old(self).posts@.len() > 0 ==> *final(self) == (App {
                input_mode: InputMode::Confirming(
                    ConfirmAction::DeletePost(
                        old(self).posts@[old(self).selected_index as int].id,
                    ),
                ),
                ..*old(self)
            }),
    {
        if self.posts.len() == 0 {
            return ;
        }
        let pid = self.posts[self.selected_index].id;
        self.input_mode = InputMode::Confirming(ConfirmAction::DeletePost(pid));
    }

    /// Ask to delete the category under the sidebar cursor: deleting
    /// "General" is rejected immediately with a visible notice and no
    /// confirmation becomes pending; any other category awaits one.
    pub fn request_delete_selected_category(&mut self)
        requires
            old(self).wf(),
        ensures
            final(self).wf(),
            *final(self) == (App {
                message: final(self).message,
                input_mode: final(self).input_mode,
                ..*old(self)
            }),
            !(old(self).sidebar.section == crate::nav::SidebarSection::Categories) || old(self).sidebar.categories@.len() == 0 ==> *final(self) == *old(self),
            old(self).sidebar.section == crate::nav::SidebarSection::Categories && old(self).sidebar.categories@.len() > 0 ==> ({
                let cat = old(self).sidebar.categories@[old(self).sidebar.category_index as int];
                if cat@ == "General"@ {
                    (final(self).message matches Some(m) && m@
                        == "Cannot delete 'General' category"@) && final(self).input_mode
                        == old(self).input_mode && final(self).posts@ == old(self).posts@
                        && final(self).sidebar == old(self).sidebar
                } else {
                    *final(self) == (App {
                        input_mode: InputMode::Confirming(
                            ConfirmAction::DeleteCategory(cat),
                        ),
                        ..*old(self)
                    })
                }
            }),
    {
        let in_categories = match self.sidebar.section {
            crate::nav::SidebarSection::Categories => true,
            crate::nav::SidebarSection::SmartViews => false,
        };
        if !in_categories || self.sidebar.categories.len() == 0 {
            return ;
        }
        let cat = self.sidebar.categories[self.sidebar.category_index].clone();
        let general = "General".to_owned();
        if string_eq(&cat, &general) {
            self.message = Some("Cannot delete 'General' category".to_owned());
        } else {
            self.input_mode = InputMode::Confirming(ConfirmAction::DeleteCategory(cat));
        }
    }

    /// Decline a pending confirmation: nothing is executed and normal
    /// input resumes. Without a pending confirmation this is a no-op.
    pub fn confirm_decline(&mut self)
        requires
            old(self).wf(),
        ensures
            final(self).wf(),
            old(self).input_mode is Confirming ==> *final(self) == (App {
                input_mode: InputMode::Normal,
                message: Option::<String>::None,
                ..*old(self)
            }),
            !(old(self).input_mode is Confirming) ==> *final(self) == *old(self),
    {
        let pending = match &self.input_mode {
            InputMode::Confirming(_) => true,
            _ => false,
        };
        if pending {
            self.input_mode = InputMode::Normal;
            self.message = None;
        }
    }

    /// Affirm a pending confirmation: the held action runs and normal
    /// input resumes. Without a pending confirmation this is a no-op. A
    /// pending deletion of "General" (which the request path never
    /// creates) is discarded unexecuted.
    pub fn confirm_affirm(&mut self, store: &mut Store)
        requires
            old(self).wf(),
            old(store).wf(),
        ensures
            final(self).wf(),
            final(store).wf(),
            *final(self) == (App {
                posts: final(self).posts,
                selected_index: final(self).selected_index,
                feeds: final(self).feeds,
                selected_feed_index: final(self).selected_feed_index,
                sidebar: final(self).sidebar,
                message: final(self).message,
                input_mode: final(self).input_mode,
                ..*old(self)
            }),
            !(old(self).input_mode is Confirming) ==> *final(self) == *old(self) && *final(store)
                == *old(store),
            old(self).input_mode is Confirming ==> final(self).input_mode == InputMode::Normal,
            old(self).input_mode matches InputMode::Confirming(ConfirmAction::DeletePost(pid))
                ==> ({
                &&& final(store).spec_feeds() == old(store).spec_feeds()
                &&& final(store).spec_explicit_categories() == old(store).spec_explicit_categories()
                &&& (has_post(old(store).spec_posts(), pid) ==> final(store).spec_posts() == old(store).spec_posts().remove(crate::store::post_index_of(old(store).spec_posts(), pid)))
                &&& (!has_post(old(store).spec_posts(), pid) ==> final(store).spec_posts()
                    == old(store).spec_posts())
                &&& final(self).posts@ == old(self).posts@.filter(|p: Post| p.id != pid)
                &&& sidebar_refreshed(old(self).sidebar, final(self).sidebar, *final(store))
                &&& final(self).message is Some
            }),
            old(self).input_mode matches InputMode::Confirming(ConfirmAction::DeleteFeed(fid))
                ==> ({
                &&& final(store).spec_feeds() == old(store).spec_feeds().filter(
                    |f: Feed| f.id != fid,
                )
                &&& final(store).spec_posts() == old(store).spec_posts().filter(
                    |p: Post| p.feed_id != fid,
                )
                &&& final(self).feeds@ == final(store).spec_feeds()
                &&& sidebar_refreshed(old(self).sidebar, final(self).sidebar, *final(store))
                &&& is_view_of(
                    *final(store),
                    old(self).active_node@,
                    old(self).show_read,
                    FRESH_PER_CATEGORY as int,
                    final(self).posts@,
                )
                &&& final(self).message is Some
            }),
            old(self).input_mode matches InputMode::Confirming(
                ConfirmAction::DeleteCategory(name),
            ) ==> (name@ != "General"@ ==> {
                &&& final(store).spec_posts() == old(store).spec_posts()
                &&& !name_in(final(store).spec_categories(), name@)
                &&& sidebar_refreshed(old(self).sidebar, final(self).sidebar, *final(store))
                &&& is_view_of(
                    *final(store),
                    old(self).active_node@,
                    old(self).show_read,
                    FRESH_PER_CATEGORY as int,
                    final(self).posts@,
                )
                &&& final(self).message is Some
            }),
    {
        let action: Option<ConfirmAction> = match &self.input_mode {
            InputMode::Confirming(a) => Some(
                match a {
                    ConfirmAction::DeletePost(id) => ConfirmAction::DeletePost(*id),
                    ConfirmAction::DeleteFeed(id) => ConfirmAction::DeleteFeed(*id),
                    ConfirmAction::DeleteCategory(name) => ConfirmAction::DeleteCategory(
                        name.clone(),
                    ),
                },
            ),
            _ => None,
        };
        match action {
            None => {},
            Some(ConfirmAction::DeletePost(pid)) => {
                store.delete_post(pid);
                let ghost posts0 = self.posts@;
                let mut kept: Vec<Post> = Vec::new();
                let mut i: usize = 0;
                proof {
                    assert(posts0.take(0int).filter(|p: Post| p.id != pid)
                        == Seq::<Post>::empty());
                }
                while i < self.posts.len()
                    invariant
                        i <= posts0.len(),
                        posts0 == self.posts@,
                        kept@ == posts0.take(i as int).filter(|p: Post| p.id != pid),
                    decreases posts0.len() - i,
                {
                    if self.posts[i].id != pid {
                        kept.push(self.posts[i].duplicate());
                    }
                    proof {
                        broadcast use Seq::lemma_filter_push;

                        assert(posts0.take(i + 1).drop_last() == posts0.take(i as int));
                        assert(posts0.take(i + 1) == posts0.take(i as int).push(
                            posts0[i as int],
                        ));
                    }
                    i += 1;
                }
                proof {
                    assert(posts0.take(posts0.len() as int) == posts0);
                }
                self.posts = kept;
                if self.selected_index >= self.posts.len() {
                    if self.posts.len() == 0 {
                        self.selected_index = 0;
                    } else {
                        self.selected_index = self.posts.len() - 1;
                    }
                }
                self.refresh_sidebar(store);
                self.message = Some("Post deleted".to_owned());
                self.input_mode = InputMode::Normal;
            },
            Some(ConfirmAction::DeleteFeed(fid)) => {
                store.delete_feed(fid);
                self.reload_feeds(store);
                self.refresh_sidebar(store);
                self.reload_posts_for_active_node(store);
                self.message = Some("Feed deleted".to_owned());
                self.input_mode = InputMode::Normal;
            },
            Some(ConfirmAction::DeleteCategory(name)) => {
                let general = "General".to_owned();
                if !string_eq(&name, &general) {
                    store.delete_category(&name);
                    self.refresh_sidebar(store);
                    self.reload_posts_for_active_node(store);
                    self.message = Some(
                        "Category '".to_owned().concat(name.as_str()).concat("' deleted"),
                    );
                }
                self.input_mode = InputMode::Normal;
            },
        }
    }

    /// Reconcile one background refresh completion: the node is stamped
    /// fetched and every aggregate recomputed, but the visible list is
    /// re-materialized only when the completed node is still the active
    /// one. A completion for a node the user has navigated away from never
    /// touches the list they are looking at; the fetched data waits in the
    /// store for that node's next selection.
    pub fn handle_refresh_completion(&mut self, store: &Store, node: &NavNode, now: u64)
        requires
            old(self).wf(),
            store.wf(),
        ensures
            final(self).wf(),
            *final(self) == (App {
                posts: final(self).posts,
                selected_index: final(self).selected_index,
                sidebar: final(self).sidebar,
                is_loading: final(self).is_loading,
                message: final(self).message,
                ..*old(self)
            }),
            !(old(self).active_node@ == node@) ==> final(self).posts@ == old(self).posts@
                && final(self).selected_index == old(self).selected_index,
            old(self).active_node@ == node@ ==> is_view_of(
                *store,
                node@,
                old(self).show_read,
                FRESH_PER_CATEGORY as int,
                final(self).posts@,
            ),
            counts_synced(final(self).sidebar, *store),
            node@ is Smart ==> final(self).sidebar.spec_stamp_of(node@) == Some(now),
            (node@ is Category && name_in(old(self).sidebar.categories@, node@->Category_0)
                && name_in(final(self).sidebar.categories@, node@->Category_0)) ==> final(self).sidebar.spec_stamp_of(node@) == Some(now),
            final(self).is_loading == false,
            final(self).message is Some,
            final(self).active_node@ == old(self).active_node@,
            final(self).show_read == old(self).show_read,
            final(self).feeds@ == old(self).feeds@,
    {
        self.sidebar.mark_fetched(node.duplicate(), now);
        if self.active_node.same(node) {
            self.reload_posts_for_active_node(store);
        }
        self.refresh_sidebar(store);
        self.is_loading = false;
        self.message = Some("Feeds updated".to_owned());
        proof {
            if node@ is Category && name_in(old(self).sidebar.categories@, node@->Category_0)
                && name_in(self.sidebar.categories@, node@->Category_0) {
                let name = node@->Category_0;
                let i = name_index_of(self.sidebar.categories@, name);
                assert(self.sidebar.categories@[i]@ == name);
            }
        }
    }
}


impl App {
    /// Prepare the clipboard payload for the selected post's URL — its
    /// base64 text, as the terminal's clipboard escape sequence carries it
    /// — and note the copy to the user. The shell writes the escape
    /// sequence itself.
    pub fn copy_url_to_clipboard(&mut self) -> (r: Option<String>)
        requires
            old(self).wf(),
        ensures
            final(self).wf(),
            old(self).posts@.len() == 0 ==> r is None && *final(self) == *old(self),
            old(self).posts@.len() > 0 ==> (r matches Some(payload) && payload@
                == crate::encode::b64_spec(
                vstd::utf8::encode_utf8(
                    old(self).posts@[old(self).selected_index as int].url@,
                ),
            )) && final(self).message is Some && *final(self) == (App {
                message: final(self).message,
                ..*old(self)
            }),
    {
        if self.posts.len() == 0 {
            return None;
        }
        let url = self.posts[self.selected_index].url.clone();
        let payload = crate::encode::base64_encode(url.as_str());
        self.message = Some("URL copied to clipboard".to_owned());
        Some(payload)
    }
}

} // verus!
