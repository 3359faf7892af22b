//! Whole-store reading statistics, taken as a pull-based snapshot.

use vstd::prelude::*;
use crate::model::{Feed, PostFilter};
use crate::store::{dedup_names, in_cat_pred, matches_pred, Store};

verus! {

/// Totals over the whole store: posts by state, feeds, and per-category
/// post counts.
pub struct AppStats {
    pub total_posts: usize,
    pub read_posts: usize,
    pub unread_posts: usize,
    pub saved_posts: usize,
    pub archived_posts: usize,
    pub read_later_posts: usize,
    pub feeds_count: usize,
    pub categories: Vec<(String, usize)>,
}

impl Default for AppStats {
    /// All zeroes, nothing counted yet.
    fn default() -> (r: AppStats)
        ensures
            r.total_posts == 0,
            r.read_posts == 0,
            r.unread_posts == 0,
            r.saved_posts == 0,
            r.archived_posts == 0,
            r.read_later_posts == 0,
            r.feeds_count == 0,
            r.categories@.len() == 0,
    {
        AppStats {
            total_posts: 0,
            read_posts: 0,
            unread_posts: 0,
            saved_posts: 0,
            archived_posts: 0,
            read_later_posts: 0,
            feeds_count: 0,
            categories: Vec::new(),
        }
    }
}

impl AppStats {
    /// Snapshot every statistic from the store.
    pub fn from_store(store: &Store) -> (r: AppStats)
        requires
            store.wf(),
        ensures
            r.total_posts == store.spec_posts().len(),
            r.unread_posts == store.spec_posts().filter(
                matches_pred(
                    (PostFilter {
                        only_unread: true,
                        only_bookmarked: false,
                        only_archived: false,
                        only_read_later: false,
                    }),
                ),
            ).len(),
            r.read_posts == r.total_posts - r.unread_posts,
            r.saved_posts == store.spec_posts().filter(
                matches_pred(
                    (PostFilter {
                        only_unread: false,
                        only_bookmarked: true,
                        only_archived: false,
                        only_read_later: false,
                    }),
                ),
            ).len(),
            r.archived_posts == store.spec_posts().filter(
                matches_pred(
                    (PostFilter {
                        only_unread: false,
                        only_bookmarked: false,
                        only_archived: true,
                        only_read_later: false,
                    }),
                ),
            ).len(),
            r.read_later_posts == store.spec_posts().filter(
                matches_pred(
                    (PostFilter {
                        only_unread: false,
                        only_bookmarked: false,
                        only_archived: false,
                        only_read_later: true,
                    }),
                ),
            ).len(),
            r.feeds_count == store.spec_feeds().len(),
            ({
                let cats = crate::order::sort_names(
                    dedup_names(
                        Seq::<String>::empty(),
                        store.spec_feeds().map_values(|f: Feed| f.category),
                    ),
                );
                r.categories@.len() == cats.len() && forall|t: int|
                    0 <= t < cats.len() ==> (#[trigger] r.categories@[t]).0 == cats[t]
                        && r.categories@[t].1 == store.spec_posts().filter(
                        in_cat_pred(store.spec_feeds(), cats[t]@),
                    ).len()
            }),
    {
        let total_posts = store.get_total_posts_count();
        let unread_posts = store.count_posts(
            &(PostFilter {
                only_unread: true,
                only_bookmarked: false,
                only_archived: false,
                only_read_later: false,
            }),
        );
        proof {
            broadcast use Seq::lemma_filter_len;

        }
        let read_posts = total_posts - unread_posts;
        let saved_posts = store.count_posts(
            &(PostFilter {
                only_unread: false,
                only_bookmarked: true,
                only_archived: false,
                only_read_later: false,
            }),
        );
        let archived_posts = store.count_posts(
            &(PostFilter {
                only_unread: false,
                only_bookmarked: false,
                only_archived: true,
                only_read_later: false,
            }),
        );
        let read_later_posts = store.count_posts(
            &(PostFilter {
                only_unread: false,
                only_bookmarked: false,
                only_archived: false,
                only_read_later: true,
            }),
        );
        let feeds_count = store.get_total_feeds_count();
        let categories = store.get_category_stats();
        AppStats {
            total_posts,
            read_posts,
            unread_posts,
            saved_posts,
            archived_posts,
            read_later_posts,
            feeds_count,
            categories,
        }
    }
}

} // verus!
