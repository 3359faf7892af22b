//! The navigation model: the navigable node space (four fixed smart views
//! plus the dynamic category list), the sidebar cursor with its two
//! sections, and the per-node aggregate counts and staleness stamps.

use vstd::prelude::*;
use crate::model::{find_name, name_in, string_eq, Post, PostFilter};
use crate::store::{in_cat_pred, matches_pred, names_distinct, Store};

verus! {

/// The four fixed system-wide filtered views.
#[derive(Debug, Clone, Copy, PartialEq, Eq, Structural, Hash)]
pub enum SmartView {
    Fresh,
    Starred,
    ReadLater,
    Archived,
}

impl SmartView {
    /// The view's display title.
    pub open spec fn spec_title(self) -> Seq<char> {
        match self {
            SmartView::Fresh => "Fresh"@,
            SmartView::Starred => "Starred"@,
            SmartView::ReadLater => "Read Later"@,
            SmartView::Archived => "Archived"@,
        }
    }

    /// The view's display title.
    pub fn title(&self) -> (r: &'static str)
        ensures
            r@ == self.spec_title(),
    {
        match self {
            SmartView::Fresh => "Fresh",
            SmartView::Starred => "Starred",
            SmartView::ReadLater => "Read Later",
            SmartView::Archived => "Archived",
        }
    }

    /// The view's sidebar glyph.
    pub fn icon(&self) -> (r: &'static str) {
        match self {
            SmartView::Fresh => "\u{f0238}",
            SmartView::Starred => "\u{2605}",
            SmartView::ReadLater => "\u{f00f0}",
            SmartView::Archived => "\u{f01a7}",
        }
    }

    /// Every smart view, in sidebar order.
    pub fn all() -> (r: Vec<SmartView>)
        ensures
            r@ == seq![
                SmartView::Fresh,
                SmartView::Starred,
                SmartView::ReadLater,
                SmartView::Archived,
            ],
    {
        let mut r: Vec<SmartView> = Vec::new();
        r.push(SmartView::Fresh);
        r.push(SmartView::Starred);
        r.push(SmartView::ReadLater);
        r.push(SmartView::Archived);
        proof {
            assert(r@ =~= seq![
                SmartView::Fresh,
                SmartView::Starred,
                SmartView::ReadLater,
                SmartView::Archived,
            ]);
        }
        r
    }
}

/// A selectable navigation target: a smart view or a named category.
/// Identity is structural.
#[derive(Debug, Clone, PartialEq)]
pub enum NavNode {
    SmartView(SmartView),
    Category(String),
}

/// The abstract value of a `NavNode`: the category name is taken as its
/// characters.
pub enum NavNodeView {
    Smart(SmartView),
    Category(Seq<char>),
}

impl View for NavNode {
    type V = NavNodeView;

    open spec fn view(&self) -> NavNodeView {
        match self {
            NavNode::SmartView(sv) => NavNodeView::Smart(*sv),
            NavNode::Category(name) => NavNodeView::Category(name@),
        }
    }
}

impl NavNode {
    /// The node's display title.
    pub fn title(&self) -> (r: String)
        ensures
            r@ == match self@ {
                NavNodeView::Smart(sv) => sv.spec_title(),
                NavNodeView::Category(name) => name,
            },
    {
        match self {
            NavNode::SmartView(sv) => sv.title().to_owned(),
            NavNode::Category(name) => name.clone(),
        }
    }

    /// The node's sidebar glyph.
    pub fn icon(&self) -> (r: &'static str) {
        match self {
            NavNode::SmartView(sv) => sv.icon(),
            NavNode::Category(_) => "\u{f024b}",
        }
    }

    /// Structural identity: same variant, and for categories the same name.
    pub fn same(&self, other: &NavNode) -> (r: bool)
        ensures
            r == (self@ == other@),
    {
        match (self, other) {
            (NavNode::SmartView(a), NavNode::SmartView(b)) => *a == *b,
            (NavNode::Category(a), NavNode::Category(b)) => string_eq(a, b),
            _ => false,
        }
    }

    /// A structural copy, equal in specifications to what it copies.
    pub fn duplicate(&self) -> (r: NavNode)
        ensures
            r@ == self@,
    {
        match self {
            NavNode::SmartView(sv) => NavNode::SmartView(*sv),
            NavNode::Category(name) => NavNode::Category(name.clone()),
        }
    }
}

/// Which pane of the reader holds focus.
#[derive(Debug, Clone, Copy, PartialEq, Eq, Structural)]
pub enum FocusPane {
    Sidebar,
    Posts,
    Article,
}

/// Which sidebar section the cursor is in.
#[derive(Debug, Clone, Copy, PartialEq, Eq, Structural)]
pub enum SidebarSection {
    SmartViews,
    Categories,
}

/// Per-node post counts: one per smart view, and one per category, aligned
/// with the sidebar's category list.
pub struct SidebarCounts {
    pub fresh: usize,
    pub starred: usize,
    pub read_later: usize,
    pub archived: usize,
    pub per_category: Vec<usize>,
}

/// Per-node last-successful-refresh instants (seconds since the Unix
/// epoch), aligned with the sidebar's category list.
pub struct StalenessMap {
    pub fresh: Option<u64>,
    pub starred: Option<u64>,
    pub read_later: Option<u64>,
    pub archived: Option<u64>,
    pub per_category: Vec<Option<u64>>,
}

/// The sidebar: the fixed smart views, the category list, the selection
/// cursor, and the per-node counts and staleness stamps.
pub struct SidebarState {
    pub smart_views: Vec<SmartView>,
    pub categories: Vec<String>,
    pub section: SidebarSection,
    pub smart_view_index: usize,
    pub category_index: usize,
    pub counts: SidebarCounts,
    pub last_fetched: StalenessMap,
}

/// The index of the (unique) name among `cats` with characters `name`.
pub open spec fn name_index_of(cats: Seq<String>, name: Seq<char>) -> int {
    choose|i: int| 0 <= i < cats.len() && (#[trigger] cats[i])@ == name
}

impl SidebarState {
    /// Sidebar invariant: the smart view list is fixed, both cursors stay
    /// in bounds (the category cursor resting at zero when the list is
    /// empty, and valid whenever the cursor is in the category section),
    /// category names are distinct, and the count and staleness maps are
    /// keyed exactly by the current category list.
    pub open spec fn wf(self) -> bool {
        &&& self.smart_views@ == seq![
            SmartView::Fresh,
            SmartView::Starred,
            SmartView::ReadLater,
            SmartView::Archived,
        ]
        &&& self.smart_view_index < self.smart_views@.len()
        &&& (self.category_index < self.categories@.len() || (self.categories@.len() == 0
            && self.category_index == 0))
        &&& (self.section == SidebarSection::Categories ==> self.category_index
            < self.categories@.len())
        &&& names_distinct(self.categories@)
        &&& self.counts.per_category@.len() == self.categories@.len()
        &&& self.last_fetched.per_category@.len() == self.categories@.len()
    }

    /// A fresh sidebar: the four smart views, no categories yet, cursor on
    /// the first smart view, all counts zero and nothing fetched.
    pub fn new() -> (r: SidebarState)
        ensures
            r.wf(),
            r.categories@.len() == 0,
            r.section == SidebarSection::SmartViews,
            r.smart_view_index == 0,
            r.category_index == 0,
            r.counts.fresh == 0,
            r.counts.starred == 0,
            r.counts.read_later == 0,
            r.counts.archived == 0,
            r.counts.per_category@.len() == 0,
            r.last_fetched.fresh is None,
            r.last_fetched.starred is None,
            r.last_fetched.read_later is None,
            r.last_fetched.archived is None,
            r.last_fetched.per_category@.len() == 0,
    {
        SidebarState {
            smart_views: SmartView::all(),
            categories: Vec::new(),
            section: SidebarSection::SmartViews,
            smart_view_index: 0,
            category_index: 0,
            counts: SidebarCounts {
                fresh: 0,
                starred: 0,
                read_later: 0,
                archived: 0,
                per_category: Vec::new(),
            },
            last_fetched: StalenessMap {
                fresh: None,
                starred: None,
                read_later: None,
                archived: None,
                per_category: Vec::new(),
            },
        }
    }

    /// The node under the cursor.
    pub open spec fn spec_selected_node(self) -> NavNodeView {
        if self.section == SidebarSection::SmartViews {
            NavNodeView::Smart(self.smart_views@[self.smart_view_index as int])
        } else {
            NavNodeView::Category(self.categories@[self.category_index as int]@)
        }
    }

    /// The node under the cursor.
    pub fn selected_node(&self) -> (r: NavNode)
        requires
            self.wf(),
        ensures
            r@ == self.spec_selected_node(),
    {
        match self.section {
            SidebarSection::SmartViews => NavNode::SmartView(
                self.smart_views[self.smart_view_index],
            ),
            SidebarSection::Categories => NavNode::Category(
                self.categories[self.category_index].clone(),
            ),
        }
    }

    /// Move the cursor down one entry. Past the last smart view it enters
    /// the categories at index zero when any exist (and stays put when none
    /// do); past the last category it stays put.
    pub fn next(&mut self)
        requires
            old(self).wf(),
        ensures
            final(self).wf(),
            ({
                let s = *old(self);
                if s.section == SidebarSection::SmartViews {
                    if s.smart_view_index + 1 < s.smart_views@.len() {
                        *final(self) == (SidebarState {
                            smart_view_index: (s.smart_view_index + 1) as usize,
                            ..s
                        })
                    } else if s.categories@.len() > 0 {
                        *final(self) == (SidebarState {
                            section: SidebarSection::Categories,
                            category_index: 0,
                            ..s
                        })
                    } else {
                        *final(self) == s
                    }
                } else {
                    if s.category_index + 1 < s.categories@.len() {
                        *final(self) == (SidebarState {
                            category_index: (s.category_index + 1) as usize,
                            ..s
                        })
                    } else {
                        *final(self) == s
                    }
                }
            }),
    {
        match self.section {
            SidebarSection::SmartViews => {
                if self.smart_view_index + 1 < self.smart_views.len() {
                    self.smart_view_index += 1;
                } else if self.categories.len() > 0 {
                    self.section = SidebarSection::Categories;
                    self.category_index = 0;
                }
            },
            SidebarSection::Categories => {
                let len = self.categories.len();
                if len > 0 && self.category_index < len - 1 {
                    self.category_index += 1;
                }
            },
        }
    }

    /// Move the cursor up one entry. Before the first category it re-enters
    /// the smart views at their last index; before the first smart view it
    /// stays put.
    pub fn previous(&mut self)
        requires
            old(self).wf(),
        ensures
            final(self).wf(),
            ({
                let s = *old(self);
                if s.section == SidebarSection::SmartViews {
                    if s.smart_view_index > 0 {
                        *final(self) == (SidebarState {
                            smart_view_index: (s.smart_view_index - 1) as usize,
                            ..s
                        })
                    } else {
                        *final(self) == s
                    }
                } else {
                    if s.category_index > 0 {
                        *final(self) == (SidebarState {
                            category_index: (s.category_index - 1) as usize,
                            ..s
                        })
                    } else {
                        *final(self) == (SidebarState {
                            section: SidebarSection::SmartViews,
                            smart_view_index: (s.smart_views@.len() - 1) as usize,
                            ..s
                        })
                    }
                }
            }),
    {
        match self.section {
            SidebarSection::SmartViews => {
                if self.smart_view_index > 0 {
                    self.smart_view_index -= 1;
                }
            },
            SidebarSection::Categories => {
                if self.category_index > 0 {
                    self.category_index -= 1;
                } else {
                    self.section = SidebarSection::SmartViews;
                    self.smart_view_index = self.smart_views.len() - 1;
                }
            },
        }
    }

    /// The count recorded for a node: zero for a category that is not in
    /// the current list.
    pub open spec fn spec_count_of(self, n: NavNodeView) -> int {
        match n {
            NavNodeView::Smart(SmartView::Fresh) => self.counts.fresh as int,
            NavNodeView::Smart(SmartView::Starred) => self.counts.starred as int,
            NavNodeView::Smart(SmartView::ReadLater) => self.counts.read_later as int,
            NavNodeView::Smart(SmartView::Archived) => self.counts.archived as int,
            NavNodeView::Category(name) => if name_in(self.categories@, name) {
                self.counts.per_category@[name_index_of(self.categories@, name)] as int
            } else {
                0
            },
        }
    }

    /// The count recorded for a node.
    pub fn get_count(&self, node: &NavNode) -> (r: usize)
        requires
            self.wf(),
        ensures
            r == self.spec_count_of(node@),
    {
        match node {
            NavNode::SmartView(sv) => match sv {
                SmartView::Fresh => self.counts.fresh,
                SmartView::Starred => self.counts.starred,
                SmartView::ReadLater => self.counts.read_later,
                SmartView::Archived => self.counts.archived,
            },
            NavNode::Category(name) => {
                let loc = find_name(&self.categories, name);
                match loc {
                    Some(i) => {
                        proof {
                            assert(name_in(self.categories@, name@));
                            let k = name_index_of(self.categories@, name@);
                            if k != i as int {
                                assert(self.categories@[k]@ == name@);
                                assert(names_distinct(self.categories@));
                                assert(false);
                            }
                        }
                        self.counts.per_category[i]
                    },
                    None => 0,
                }
            },
        }
    }

    /// The last-refresh stamp recorded for a node: absent for a category
    /// that is not in the current list.
    pub open spec fn spec_stamp_of(self, n: NavNodeView) -> Option<u64> {
        match n {
            NavNodeView::Smart(SmartView::Fresh) => self.last_fetched.fresh,
            NavNodeView::Smart(SmartView::Starred) => self.last_fetched.starred,
            NavNodeView::Smart(SmartView::ReadLater) => self.last_fetched.read_later,
            NavNodeView::Smart(SmartView::Archived) => self.last_fetched.archived,
            NavNodeView::Category(name) => if name_in(self.categories@, name) {
                self.last_fetched.per_category@[name_index_of(self.categories@, name)]
            } else {
                None
            },
        }
    }

    /// Record `now` as the node's last successful refresh. A category not
    /// in the current list is a silent no-op: the staleness map only ever
    /// holds keys from the current category list and the smart views.
    pub fn mark_fetched(&mut self, node: NavNode, now: u64)
        requires
            old(self).wf(),
        ensures
            final(self).wf(),
            final(self).spec_stamp_of(node@) == (if node@ is Category && !name_in(
                old(self).categories@,
                node@->Category_0,
            ) {
                Option::<u64>::None
            } else {
                Some(now)
            }),
            final(self).categories@ == old(self).categories@,
            final(self).section == old(self).section,
            final(self).smart_views@ == old(self).smart_views@,
            final(self).smart_view_index == old(self).smart_view_index,
            final(self).category_index == old(self).category_index,
            ({
                let c0 = old(self).counts;
                let c1 = final(self).counts;
                c1.fresh == c0.fresh && c1.starred == c0.starred && c1.read_later
                    == c0.read_later && c1.archived == c0.archived && c1.per_category@
                    == c0.per_category@
            }),
            forall|n: NavNodeView|
                #[trigger] final(self).spec_stamp_of(n) == old(self).spec_stamp_of(n) || n
                    == node@,
    {
        match node {
            NavNode::SmartView(sv) => match sv {
                SmartView::Fresh => self.last_fetched.fresh = Some(now),
                SmartView::Starred => self.last_fetched.starred = Some(now),
                SmartView::ReadLater => self.last_fetched.read_later = Some(now),
                SmartView::Archived => self.last_fetched.archived = Some(now),
            },
            NavNode::Category(name) => {
                let loc = find_name(&self.categories, &name);
                match loc {
                    Some(i) => {
                        self.last_fetched.per_category.set(i, Some(now));
                        proof {
                            assert(name_in(self.categories@, name@));
                            let k = name_index_of(self.categories@, name@);
                            if k != i as int {
                                assert(self.categories@[k]@ == name@);
                                assert(false);
                            }
                            assert forall|n: NavNodeView|
                                #[trigger] self.spec_stamp_of(n) == old(self).spec_stamp_of(n)
                                    || n == node@ by {
                                if n is Category && name_in(
                                    self.categories@,
                                    n->Category_0,
                                ) {
                                    let m = name_index_of(self.categories@, n->Category_0);
                                    if m != i as int {
                                        assert(self.spec_stamp_of(n) == old(self).spec_stamp_of(n));
                                    } else {
                                        assert(self.categories@[i as int]@ == name@);
                                        assert(n == node@);
                                    }
                                }
                            }
                        }
                    },
                    None => {},
                }
            },
        }
    }

    /// Reload the category list from the store (synthesizing a lone
    /// "General" if the store reports none), clamp the category cursor to
    /// the new list, zero the per-category counts pending a recompute, and
    /// carry each persisting category's staleness stamp over by name.
    pub fn load_categories(&mut self, store: &Store)
        requires
            old(self).wf(),
            store.wf(),
        ensures
            final(self).wf(),
            store.spec_categories().len() == 0 ==> final(self).categories@.len() == 1 && final(self).categories@[0]@ == "General"@,
            store.spec_categories().len() > 0 ==> final(self).categories@
                == store.spec_categories(),
            final(self).section == old(self).section,
            final(self).smart_views@ == old(self).smart_views@,
            final(self).smart_view_index == old(self).smart_view_index,
            final(self).category_index as int == (if old(self).category_index < final(self).categories@.len() {
                old(self).category_index as int
            } else {
                final(self).categories@.len() - 1
            }),
            final(self).counts.fresh == old(self).counts.fresh,
            final(self).counts.starred == old(self).counts.starred,
            final(self).counts.read_later == old(self).counts.read_later,
            final(self).counts.archived == old(self).counts.archived,
            forall|i: int|
                0 <= i < final(self).counts.per_category@.len() ==> final(self).counts.per_category@[i] == 0,
            final(self).last_fetched.fresh == old(self).last_fetched.fresh,
            final(self).last_fetched.starred == old(self).last_fetched.starred,
            final(self).last_fetched.read_later == old(self).last_fetched.read_later,
            final(self).last_fetched.archived == old(self).last_fetched.archived,
            forall|i: int|
                0 <= i < final(self).categories@.len() ==> final(self).last_fetched.per_category@[i] == (if name_in(
                    old(self).categories@,
                    (#[trigger] final(self).categories@[i])@,
                ) {
                    old(self).last_fetched.per_category@[name_index_of(
                        old(self).categories@,
                        final(self).categories@[i]@,
                    )]
                } else {
                    Option::<u64>::None
                }),
    {
        let mut cats = store.list_categories();
        if cats.len() == 0 {
            cats.push("General".to_owned());
        }
        let mut stamps: Vec<Option<u64>> = Vec::new();
        let mut zeroes: Vec<usize> = Vec::new();
        let mut i: usize = 0;
        while i < cats.len()
            invariant
                old(self).wf(),
                self == old(self),
                i <= cats@.len(),
                names_distinct(cats@),
                stamps@.len() == i,
                zeroes@.len() == i,
                forall|t: int| 0 <= t < i ==> #[trigger] zeroes@[t] == 0,
                forall|t: int|
                    0 <= t < i ==> #[trigger] stamps@[t] == (if name_in(
                        old(self).categories@,
                        cats@[t]@,
                    ) {
                        old(self).last_fetched.per_category@[name_index_of(
                            old(self).categories@,
                            cats@[t]@,
                        )]
                    } else {
                        Option::<u64>::None
                    }),
            decreases cats@.len() - i,
        {
            let loc = find_name(&self.categories, &cats[i]);
            match loc {
                Some(j) => {
                    stamps.push(self.last_fetched.per_category[j]);
                    proof {
                        assert(name_in(self.categories@, cats@[i as int]@));
                        let k = name_index_of(self.categories@, cats@[i as int]@);
                        if k != j as int {
                            assert(self.categories@[k]@ == cats@[i as int]@);
                            assert(false);
                        }
                    }
                },
                None => {
                    stamps.push(None);
                },
            }
            zeroes.push(0);
            i += 1;
        }
        self.categories = cats;
        self.counts.per_category = zeroes;
        self.last_fetched.per_category = stamps;
        if self.category_index >= self.categories.len() {
            self.category_index = self.categories.len() - 1;
        }
    }

    /// Recompute every aggregate as a pull-based snapshot of the store:
    /// the unread, starred, read-later, and archived totals, and each
    /// category's post count.
    pub fn update_counts(&mut self, store: &Store)
        requires
            old(self).wf(),
            store.wf(),
        ensures
            final(self).wf(),
            final(self).categories@ == old(self).categories@,
            final(self).section == old(self).section,
            final(self).smart_views@ == old(self).smart_views@,
            final(self).smart_view_index == old(self).smart_view_index,
            final(self).category_index == old(self).category_index,
            final(self).last_fetched.fresh == old(self).last_fetched.fresh,
            final(self).last_fetched.starred == old(self).last_fetched.starred,
            final(self).last_fetched.read_later == old(self).last_fetched.read_later,
            final(self).last_fetched.archived == old(self).last_fetched.archived,
            final(self).last_fetched.per_category@ == old(self).last_fetched.per_category@,
            final(self).counts.fresh == store.spec_posts().filter(
                matches_pred(
                    (PostFilter {
                        only_unread: true,
                        only_bookmarked: false,
                        only_archived: false,
                        only_read_later: false,
                    }),
                ),
            ).len(),
            final(self).counts.starred == store.spec_posts().filter(
                matches_pred(
                    (PostFilter {
                        only_unread: false,
                        only_bookmarked: true,
                        only_archived: false,
                        only_read_later: false,
                    }),
                ),
            ).len(),
            final(self).counts.read_later == store.spec_posts().filter(
                matches_pred(
                    (PostFilter {
                        only_unread: false,
                        only_bookmarked: false,
                        only_archived: false,
                        only_read_later: true,
                    }),
                ),
            ).len(),
            final(self).counts.archived == store.spec_posts().filter(
                matches_pred(
                    (PostFilter {
                        only_unread: false,
                        only_bookmarked: false,
                        only_archived: true,
                        only_read_later: false,
                    }),
                ),
            ).len(),
            forall|i: int|
                0 <= i < final(self).categories@.len() ==> final(self).counts.per_category@[i] == store.spec_posts().filter(
                    in_cat_pred(store.spec_feeds(), (#[trigger] final(self).categories@[i])@),
                ).len(),
    {
        self.counts.fresh = store.count_posts(
            &(PostFilter {
                only_unread: true,
                only_bookmarked: false,
                only_archived: false,
                only_read_later: false,
            }),
        );
        self.counts.starred = store.count_posts(
            &(PostFilter {
                only_unread: false,
                only_bookmarked: true,
                only_archived: false,
                only_read_later: false,
            }),
        );
        self.counts.read_later = store.count_posts(
            &(PostFilter {
                only_unread: false,
                only_bookmarked: false,
                only_archived: false,
                only_read_later: true,
            }),
        );
        self.counts.archived = store.count_posts(
            &(PostFilter {
                only_unread: false,
                only_bookmarked: false,
                only_archived: true,
                only_read_later: false,
            }),
        );
        let mut pc: Vec<usize> = Vec::new();
        let mut i: usize = 0;
        while i < self.categories.len()
            invariant
                store.wf(),
                i <= self.categories@.len(),
                pc@.len() == i,
                forall|t: int|
                    0 <= t < i ==> #[trigger] pc@[t] == store.spec_posts().filter(
                        in_cat_pred(store.spec_feeds(), self.categories@[t]@),
                    ).len(),
            decreases self.categories@.len() - i,
        {
            let n = store.count_posts_in_category(&self.categories[i]);
            pc.push(n);
            i += 1;
        }
        self.counts.per_category = pc;
    }

    /// Whether a node's data is older than `stale_seconds`, judged at
    /// `now`: a node never refreshed is always stale.
    pub fn is_stale(&self, node: &NavNode, now: u64, stale_seconds: u64) -> (r: bool)
        requires
            self.wf(),
        ensures
            r == match self.spec_stamp_of(node@) {
                None => true,
                Some(t) => (if now >= t {
                    now - t
                } else {
                    0
                }) > stale_seconds,
            },
    {
        let stamp = match node {
            NavNode::SmartView(sv) => match sv {
                SmartView::Fresh => self.last_fetched.fresh,
                SmartView::Starred => self.last_fetched.starred,
                SmartView::ReadLater => self.last_fetched.read_later,
                SmartView::Archived => self.last_fetched.archived,
            },
            NavNode::Category(name) => {
                let loc = find_name(&self.categories, name);
                match loc {
                    Some(i) => {
                        proof {
                            assert(name_in(self.categories@, name@));
                            let k = name_index_of(self.categories@, name@);
                            if k != i as int {
                                assert(self.categories@[k]@ == name@);
                                assert(false);
                            }
                        }
                        self.last_fetched.per_category[i]
                    },
                    None => None,
                }
            },
        };
        match stamp {
            None => true,
            Some(t) => {
                let elapsed: u64 = if now >= t {
                    now - t
                } else {
                    0
                };
                elapsed > stale_seconds
            },
        }
    }
}

} // verus!
