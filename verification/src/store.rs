//! The store gateway, modeled as a verified in-memory relational store over
//! feeds, posts, and categories.
//!
//! The engine treats the persistent store as an external collaborator with
//! exactly this interface; this module gives that interface an exact
//! specification: URL-unique insert-if-absent ingestion, flag updates,
//! cascading deletes, and the category list with its permanent "General"
//! member.

use vstd::prelude::*;
use crate::model::{filter_matches, name_in, string_eq, Feed, Post, PostFilter};

verus! {

/// The flag filter as a predicate on posts.
pub open spec fn matches_pred(f: PostFilter) -> spec_fn(Post) -> bool {
    |p: Post| filter_matches(p, f)
}

/// Membership of a post's owning feed in the category named `c`, as a
/// predicate on posts.
pub open spec fn in_cat_pred(feeds: Seq<Feed>, c: Seq<char>) -> spec_fn(Post) -> bool {
    |p: Post| post_in_cat(feeds, p, c)
}

/// Feeds filed under the category named `c`, as a predicate on feeds.
pub open spec fn feed_in_cat_pred(c: Seq<char>) -> spec_fn(Feed) -> bool {
    |f: Feed| f.category@ == c
}

/// Unread posts of the category named `c`, as a predicate on posts.
pub open spec fn unread_in_cat_pred(feeds: Seq<Feed>, c: Seq<char>) -> spec_fn(Post) -> bool {
    |p: Post| !p.is_read && post_in_cat(feeds, p, c)
}

/// `n` capped at `cap`.
pub open spec fn capped(n: int, cap: int) -> int {
    if n <= cap {
        n
    } else {
        cap
    }
}

/// The bounded window a materialized view is limited to.
pub const POST_WINDOW: usize = 100;

/// The default per-category bound of the fair fresh digest.
pub const FRESH_PER_CATEGORY: usize = 15;

/// `r` is the selection of `src` by `pred`, ordered newest-first and capped
/// at `cap` posts: it is a newest-first prefix of some newest-first ordering
/// of the whole selection, and every entry passes `pred` and comes from
/// `src`.
pub open spec fn is_capped_listing(
    src: Seq<Post>,
    pred: spec_fn(Post) -> bool,
    cap: int,
    r: Seq<Post>,
) -> bool {
    let sel = src.filter(pred);
    &&& crate::model::sorted_newest_first(r)
    &&& r.len() == capped(sel.len() as int, cap)
    &&& exists|full: Seq<Post>|
        #[trigger] full.to_multiset() == sel.to_multiset()
            && crate::model::sorted_newest_first(full) && r == full.take(r.len() as int)
    &&& forall|i: int| 0 <= i < r.len() ==> pred(#[trigger] r[i]) && src.contains(r[i])
}

/// Order a filtered selection newest-first and keep at most `cap` posts.
#[verifier::rlimit(60)]
fn rank_and_cap(
    picked: Vec<Post>,
    cap: usize,
    Ghost(src): Ghost<Seq<Post>>,
    Ghost(pred): Ghost<spec_fn(Post) -> bool>,
) -> (r: Vec<Post>)
    requires
        picked@ == src.filter(pred),
    ensures
        is_capped_listing(src, pred, cap as int, r@),
        r@.to_multiset().subset_of(src.filter(pred).to_multiset()),
{
    let ghost sel = src.filter(pred);
    let mut r = crate::order::sort_posts_newest_first(picked);
    let ghost full = r@;
    crate::order::truncate_posts(&mut r, cap);
    proof {
        broadcast use vstd::seq_lib::group_to_multiset_ensures;
        broadcast use Seq::lemma_filter_pred;
        broadcast use Seq::lemma_filter_contains_rev;
        broadcast use vstd::multiset::group_multiset_axioms;

        assert(full.to_multiset() == sel.to_multiset());
        assert(r@ == full.take(r@.len() as int));
        assert forall|i: int| 0 <= i < r@.len() implies pred(#[trigger] r@[i]) && src.contains(
            r@[i],
        ) by {
            assert(r@[i] == full[i]);
            assert(full.contains(full[i]));
            assert(full.to_multiset().count(full[i]) > 0);
            assert(sel.to_multiset().count(full[i]) > 0);
            assert(sel.contains(full[i]));
            let j = choose|j: int| 0 <= j < sel.len() && sel[j] == full[i];
            assert(pred(sel[j]));
            assert(src.contains(sel[j]));
        }
        assert forall|p: Post| true implies #[trigger] r@.to_multiset().count(p)
            <= sel.to_multiset().count(p) by {
            if r@.len() < full.len() {
                assert(full == full.take(r@.len() as int) + full.skip(r@.len() as int));
                vstd::seq_lib::lemma_multiset_commutative(
                    full.take(r@.len() as int),
                    full.skip(r@.len() as int),
                );
            } else {
                assert(r@ == full);
            }
        }
    }
    r
}

/// Pairwise-distinct post identities.
pub open spec fn post_ids_distinct(s: Seq<Post>) -> bool {
    forall|i: int, j: int|
        0 <= i < j < s.len() ==> (#[trigger] s[i]).id != (#[trigger] s[j]).id
}

/// Pairwise-distinct canonical post URLs.
pub open spec fn post_urls_distinct(s: Seq<Post>) -> bool {
    forall|i: int, j: int|
        0 <= i < j < s.len() ==> (#[trigger] s[i]).url@ != (#[trigger] s[j]).url@
}

/// Pairwise-distinct feed identities.
pub open spec fn feed_ids_distinct(s: Seq<Feed>) -> bool {
    forall|i: int, j: int|
        0 <= i < j < s.len() ==> (#[trigger] s[i]).id != (#[trigger] s[j]).id
}

/// Pairwise-distinct feed source URLs.
pub open spec fn feed_urls_distinct(s: Seq<Feed>) -> bool {
    forall|i: int, j: int|
        0 <= i < j < s.len() ==> (#[trigger] s[i]).url@ != (#[trigger] s[j]).url@
}

/// Pairwise-distinct names.
pub open spec fn names_distinct(s: Seq<String>) -> bool {
    forall|i: int, j: int| 0 <= i < j < s.len() ==> (#[trigger] s[i])@ != (#[trigger] s[j])@
}

/// Whether a feed with identity `fid` exists.
pub open spec fn has_feed(feeds: Seq<Feed>, fid: i64) -> bool {
    exists|i: int| 0 <= i < feeds.len() && (#[trigger] feeds[i]).id == fid
}

/// The index of the feed with identity `fid` (meaningful when it exists and
/// feed identities are distinct).
pub open spec fn feed_index_of(feeds: Seq<Feed>, fid: i64) -> int {
    choose|i: int| 0 <= i < feeds.len() && (#[trigger] feeds[i]).id == fid
}

/// The display title of the feed with identity `fid`.
pub open spec fn feed_title_of(feeds: Seq<Feed>, fid: i64) -> Option<String> {
    if has_feed(feeds, fid) {
        feeds[feed_index_of(feeds, fid)].title
    } else {
        None
    }
}

/// Whether post `p`'s owning feed carries the category named `c`.
pub open spec fn post_in_cat(feeds: Seq<Feed>, p: Post, c: Seq<char>) -> bool {
    exists|i: int|
        0 <= i < feeds.len() && (#[trigger] feeds[i]).id == p.feed_id && feeds[i].category@ == c
}

/// Whether some stored post already claims `url`.
pub open spec fn url_present(posts: Seq<Post>, url: Seq<char>) -> bool {
    exists|i: int| 0 <= i < posts.len() && (#[trigger] posts[i]).url@ == url
}

/// How many stored posts claim `url`.
pub open spec fn url_count(posts: Seq<Post>, url: Seq<char>) -> int {
    posts.filter(|p: Post| p.url@ == url).len() as int
}

/// Whether a post with identity `pid` exists.
pub open spec fn has_post(posts: Seq<Post>, pid: i64) -> bool {
    exists|i: int| 0 <= i < posts.len() && (#[trigger] posts[i]).id == pid
}

/// The index of the post with identity `pid` (meaningful when it exists and
/// post identities are distinct).
pub open spec fn post_index_of(posts: Seq<Post>, pid: i64) -> int {
    choose|i: int| 0 <= i < posts.len() && (#[trigger] posts[i]).id == pid
}

/// Insert-if-absent on the canonical URL: a post whose URL is already
/// present leaves the table unchanged.
pub open spec fn insert_post_spec(posts: Seq<Post>, p: Post) -> Seq<Post> {
    if url_present(posts, p.url@) {
        posts
    } else {
        posts.push(p)
    }
}

/// The four independent post flags.
#[derive(Debug, Clone, Copy, PartialEq, Eq, Structural)]
pub enum PostFlag {
    Read,
    Bookmarked,
    Archived,
    ReadLater,
}

/// `p` with one flag set to `v` and all else unchanged.
pub open spec fn with_flag(p: Post, flag: PostFlag, v: bool) -> Post {
    match flag {
        PostFlag::Read => Post { is_read: v, ..p },
        PostFlag::Bookmarked => Post { is_bookmarked: v, ..p },
        PostFlag::Archived => Post { is_archived: v, ..p },
        PostFlag::ReadLater => Post { is_read_later: v, ..p },
    }
}

/// The post table after setting one flag of the post with identity `pid`.
pub open spec fn set_flag_spec(posts: Seq<Post>, pid: i64, flag: PostFlag, v: bool) -> Seq<Post> {
    posts.map_values(
        |p: Post|
            if p.id == pid {
                with_flag(p, flag, v)
            } else {
                p
            },
    )
}

/// Append the names of `extra` to `base` in first-occurrence order,
/// skipping any name already present.
pub open spec fn dedup_names(base: Seq<String>, extra: Seq<String>) -> Seq<String>
    decreases extra.len(),
{
    if extra.len() == 0 {
        base
    } else {
        let prev = dedup_names(base, extra.drop_last());
        if name_in(prev, extra.last()@) {
            prev
        } else {
            prev.push(extra.last())
        }
    }
}

/// What deduplicated appending yields: exactly the names of `base` and
/// `extra`, pairwise distinct whenever `base` was, with `base` kept as a
/// prefix.
pub proof fn lemma_dedup_names_props(base: Seq<String>, extra: Seq<String>)
    requires
        names_distinct(base),
    ensures
        names_distinct(dedup_names(base, extra)),
        forall|n: Seq<char>|
            #[trigger] name_in(dedup_names(base, extra), n) <==> (name_in(base, n) || name_in(
                extra,
                n,
            )),
        dedup_names(base, extra).take(base.len() as int) == base,
        base.len() <= dedup_names(base, extra).len(),
    decreases extra.len(),
{
    if extra.len() == 0 {
        assert(dedup_names(base, extra) == base);
        assert forall|n: Seq<char>| #[trigger] name_in(extra, n) implies false by {
        }
    } else {
        let prev = dedup_names(base, extra.drop_last());
        let out = dedup_names(base, extra);
        lemma_dedup_names_props(base, extra.drop_last());
        assert forall|n: Seq<char>| #[trigger] name_in(out, n) implies (name_in(base, n)
            || name_in(extra, n)) by {
            let i = choose|i: int| 0 <= i < out.len() && (#[trigger] out[i])@ == n;
            if i < prev.len() {
                assert(name_in(prev, n));
                if name_in(extra.drop_last(), n) {
                    let j = choose|j: int|
                        0 <= j < extra.drop_last().len() && (#[trigger] extra.drop_last()[j])@
                            == n;
                    assert(extra[j]@ == n);
                }
            } else {
                assert(out[i] == extra.last());
                assert(extra[extra.len() - 1]@ == n);
            }
        }
        assert forall|n: Seq<char>| name_in(base, n) || name_in(extra, n) implies #[trigger]
        name_in(out, n) by {
            if name_in(prev, n) {
                let i = choose|i: int| 0 <= i < prev.len() && (#[trigger] prev[i])@ == n;
                if !name_in(prev, extra.last()@) {
                    assert(out[i]@ == n);
                }
            } else {
                assert(!name_in(base, n));
                assert(name_in(extra, n));
                let j = choose|j: int| 0 <= j < extra.len() && (#[trigger] extra[j])@ == n;
                if j < extra.len() - 1 {
                    assert(extra.drop_last()[j]@ == n);
                    assert(name_in(extra.drop_last(), n));
                    assert(false);
                } else {
                    assert(extra.last()@ == n);
                    assert(out == prev.push(extra.last()));
                    assert(out[out.len() - 1]@ == n);
                }
            }
        }
        if !name_in(prev, extra.last()@) {
            assert(out == prev.push(extra.last()));
            assert forall|i: int, j: int| 0 <= i < j < out.len() implies (#[trigger] out[i])@
                != (#[trigger] out[j])@ by {
                if j == out.len() - 1 {
                    assert(out[j] == extra.last());
                    assert(prev[i]@ != extra.last()@);
                } else {
                    assert(out[i] == prev[i] && out[j] == prev[j]);
                }
            }
            assert(out.take(base.len() as int) =~= prev.take(base.len() as int));
        }
    }
}

/// The in-memory store gateway: feeds, posts, and explicitly created
/// categories, with identity counters for both tables.
pub struct Store {
    feeds: Vec<Feed>,
    posts: Vec<Post>,
    explicit_categories: Vec<String>,
    next_feed_id: i64,
    next_post_id: i64,
}

impl Store {
    /// The feed table.
    pub closed spec fn spec_feeds(self) -> Seq<Feed> {
        self.feeds@
    }

    /// The post table.
    pub closed spec fn spec_posts(self) -> Seq<Post> {
        self.posts@
    }

    /// The explicitly created category names.
    pub closed spec fn spec_explicit_categories(self) -> Seq<String> {
        self.explicit_categories@
    }

    /// The identity the next inserted post will receive.
    pub closed spec fn spec_next_post_id(self) -> i64 {
        self.next_post_id
    }

    /// The identity the next added feed will receive.
    pub closed spec fn spec_next_feed_id(self) -> i64 {
        self.next_feed_id
    }

    /// Store invariant: distinct identities and URLs in both tables, every
    /// post owned by an existing feed, identity counters above every stored
    /// identity, and a distinct category list that always holds "General".
    pub closed spec fn wf(self) -> bool {
        &&& feed_ids_distinct(self.feeds@)
        &&& feed_urls_distinct(self.feeds@)
        &&& post_ids_distinct(self.posts@)
        &&& post_urls_distinct(self.posts@)
        &&& forall|i: int|
            0 <= i < self.posts@.len() ==> has_feed(
                self.feeds@,
                (#[trigger] self.posts@[i]).feed_id,
            )
        &&& forall|i: int|
            0 <= i < self.feeds@.len() ==> 1 <= (#[trigger] self.feeds@[i]).id
                < self.next_feed_id
        &&& forall|i: int|
            0 <= i < self.posts@.len() ==> 1 <= (#[trigger] self.posts@[i]).id
                < self.next_post_id
        &&& 1 <= self.next_feed_id
        &&& 1 <= self.next_post_id
        &&& names_distinct(self.explicit_categories@)
        &&& name_in(self.explicit_categories@, "General"@)
    }

    /// A fresh store: empty tables, and "General" as the one category.
    pub fn new() -> (r: Store)
        ensures
            r.wf(),
            r.spec_feeds() == Seq::<Feed>::empty(),
            r.spec_posts() == Seq::<Post>::empty(),
            r.spec_explicit_categories().len() == 1,
            r.spec_explicit_categories()[0]@ == "General"@,
    {
        let mut cats: Vec<String> = Vec::new();
        cats.push("General".to_owned());
        let r = Store {
            feeds: Vec::new(),
            posts: Vec::new(),
            explicit_categories: cats,
            next_feed_id: 1,
            next_post_id: 1,
        };
        proof {
            assert(r.explicit_categories@[0]@ == "General"@);
        }
        r
    }

    /// The index of the feed with identity `fid`, if it exists.
    fn locate_feed(&self, fid: i64) -> (r: Option<usize>)
        requires
            self.wf(),
        ensures
            match r {
                Some(i) => i < self.spec_feeds().len() && self.spec_feeds()[i as int].id == fid
                    && has_feed(self.spec_feeds(), fid) && feed_index_of(self.spec_feeds(), fid)
                    == i as int,
                None => !has_feed(self.spec_feeds(), fid),
            },
    {
        let mut i: usize = 0;
        while i < self.feeds.len()
            invariant
                self.wf(),
                i <= self.feeds@.len(),
                forall|j: int| 0 <= j < i ==> (#[trigger] self.feeds@[j]).id != fid,
            decreases self.feeds@.len() - i,
        {
            if self.feeds[i].id == fid {
                proof {
                    assert(has_feed(self.feeds@, fid));
                    let k = feed_index_of(self.feeds@, fid);
                    if k != i as int {
                        assert(self.feeds@[k].id == fid);
                        assert(feed_ids_distinct(self.feeds@));
                        assert(false);
                    }
                }
                return Some(i);
            }
            i += 1;
        }
        None
    }

    /// The index of the post with identity `pid`, if it exists.
    fn locate_post(&self, pid: i64) -> (r: Option<usize>)
        requires
            self.wf(),
        ensures
            match r {
                Some(i) => i < self.spec_posts().len() && self.spec_posts()[i as int].id == pid
                    && has_post(self.spec_posts(), pid) && post_index_of(self.spec_posts(), pid)
                    == i as int,
                None => !has_post(self.spec_posts(), pid),
            },
    {
        let mut i: usize = 0;
        while i < self.posts.len()
            invariant
                self.wf(),
                i <= self.posts@.len(),
                forall|j: int| 0 <= j < i ==> (#[trigger] self.posts@[j]).id != pid,
            decreases self.posts@.len() - i,
        {
            if self.posts[i].id == pid {
                proof {
                    assert(has_post(self.posts@, pid));
                    let k = post_index_of(self.posts@, pid);
                    if k != i as int {
                        assert(self.posts@[k].id == pid);
                        assert(post_ids_distinct(self.posts@));
                        assert(false);
                    }
                }
                return Some(i);
            }
            i += 1;
        }
        None
    }

    /// The index of the feed subscribed at `url`, if any.
    fn locate_feed_url(&self, url: &String) -> (r: Option<usize>)
        requires
            self.wf(),
        ensures
            match r {
                Some(i) => i < self.spec_feeds().len() && self.spec_feeds()[i as int].url@ == url@,
                None => forall|j: int|
                    0 <= j < self.spec_feeds().len() ==> (#[trigger] self.spec_feeds()[j]).url@
                        != url@,
            },
    {
        let mut i: usize = 0;
        while i < self.feeds.len()
            invariant
                i <= self.feeds@.len(),
                forall|j: int| 0 <= j < i ==> (#[trigger] self.feeds@[j]).url@ != url@,
            decreases self.feeds@.len() - i,
        {
            if string_eq(&self.feeds[i].url, url) {
                return Some(i);
            }
            i += 1;
        }
        None
    }

    /// Whether some stored post already claims `url`, decided executably.
    fn url_taken(&self, url: &String) -> (r: bool)
        ensures
            r == url_present(self.spec_posts(), url@),
    {
        let mut i: usize = 0;
        while i < self.posts.len()
            invariant
                i <= self.posts@.len(),
                forall|j: int| 0 <= j < i ==> (#[trigger] self.posts@[j]).url@ != url@,
            decreases self.posts@.len() - i,
        {
            if string_eq(&self.posts[i].url, url) {
                proof {
                    assert(url_present(self.posts@, url@));
                }
                return true;
            }
            i += 1;
        }
        false
    }

    /// Subscribe a feed under a category; an existing subscription at the
    /// same URL is kept and its identity returned. `None` only on identity
    /// exhaustion, which leaves the store unchanged.
    pub fn add_feed_with_category(&mut self, url: String, category: String) -> (r: Option<i64>)
        requires
            old(self).wf(),
        ensures
            final(self).wf(),
            final(self).spec_next_post_id() == old(self).spec_next_post_id(),
            final(self).spec_posts() == old(self).spec_posts(),
            final(self).spec_explicit_categories() == old(self).spec_explicit_categories(),
            ({
                let feeds0 = old(self).spec_feeds();
                if exists|i: int| 0 <= i < feeds0.len() && (#[trigger] feeds0[i]).url@ == url@ {
                    final(self).spec_feeds() == feeds0 && (exists|i: int|
                        0 <= i < feeds0.len() && (#[trigger] feeds0[i]).url@ == url@ && r == Some(
                            feeds0[i].id,
                        ))
                } else if old(self).spec_next_feed_id() == i64::MAX {
                    final(self).spec_feeds() == feeds0 && r.is_none()
                } else {
                    final(self).spec_feeds().len() == feeds0.len() + 1 && final(self).spec_feeds().take(feeds0.len() as int) == feeds0 && ({
                        let f = final(self).spec_feeds().last();
                        f.url == url && f.category == category && f.title.is_none() && f.id == old(self).spec_next_feed_id() && r == Some(f.id) && !has_feed(feeds0, f.id)
                    })
                }
            }),
    {
        let existing = self.locate_feed_url(&url);
        match existing {
            Some(i) => Some(self.feeds[i].id),
            None => {
                if self.next_feed_id == i64::MAX {
                    None
                } else {
                    let id = self.next_feed_id;
                    self.next_feed_id = self.next_feed_id + 1;
                    let f = Feed { id, url, title: None, category };
                    self.feeds.push(f);
                    proof {
                        assert(self.feeds@.take(old(self).feeds@.len() as int) == old(self).feeds@);
                        assert forall|i: int|
                            0 <= i < self.posts@.len() implies has_feed(
                            self.feeds@,
                            (#[trigger] self.posts@[i]).feed_id,
                        ) by {
                            assert(has_feed(old(self).feeds@, self.posts@[i].feed_id));
                            let k = choose|k: int|
                                0 <= k < old(self).feeds@.len() && (#[trigger] old(self).feeds@[k]).id == self.posts@[i].feed_id;
                            assert(self.feeds@[k].id == self.posts@[i].feed_id);
                        }
                    }
                    Some(id)
                }
            },
        }
    }

    /// Subscribe a feed under the default category "General".
    pub fn add_feed(&mut self, url: String) -> (r: Option<i64>)
        requires
            old(self).wf(),
        ensures
            final(self).wf(),
            final(self).spec_next_post_id() == old(self).spec_next_post_id(),
            final(self).spec_posts() == old(self).spec_posts(),
            final(self).spec_explicit_categories() == old(self).spec_explicit_categories(),
            ({
                let feeds0 = old(self).spec_feeds();
                if exists|i: int| 0 <= i < feeds0.len() && (#[trigger] feeds0[i]).url@ == url@ {
                    final(self).spec_feeds() == feeds0 && (exists|i: int|
                        0 <= i < feeds0.len() && (#[trigger] feeds0[i]).url@ == url@ && r == Some(
                            feeds0[i].id,
                        ))
                } else if old(self).spec_next_feed_id() == i64::MAX {
                    final(self).spec_feeds() == feeds0 && r.is_none()
                } else {
                    final(self).spec_feeds().len() == feeds0.len() + 1 && final(self).spec_feeds().take(feeds0.len() as int) == feeds0 && ({
                        let f = final(self).spec_feeds().last();
                        f.url == url && f.category@ == "General"@ && f.title.is_none() && f.id
                            == old(self).spec_next_feed_id() && r == Some(f.id) && !has_feed(
                            feeds0,
                            f.id,
                        )
                    })
                }
            }),
    {
        self.add_feed_with_category(url, "General".to_owned())
    }

    /// Ingest one post, keyed by its canonical URL: present URLs are left
    /// alone, new ones are appended with all flags clear and the owning
    /// feed's title denormalized in. Returns whether a row was inserted.
    /// A missing owning feed or identity exhaustion is a silent no-op.
    pub fn insert_post_if_absent(
        &mut self,
        feed_id: i64,
        title: String,
        url: String,
        content: Option<String>,
        pub_date: Option<i64>,
    ) -> (r: bool)
        requires
            old(self).wf(),
        ensures
            final(self).wf(),
            final(self).spec_next_feed_id() == old(self).spec_next_feed_id(),
            final(self).spec_feeds() == old(self).spec_feeds(),
            final(self).spec_explicit_categories() == old(self).spec_explicit_categories(),
            r ==> final(self).spec_next_post_id() == old(self).spec_next_post_id() + 1,
            !r ==> final(self).spec_next_post_id() == old(self).spec_next_post_id(),
            ({
                let posts0 = old(self).spec_posts();
                if !has_feed(old(self).spec_feeds(), feed_id) || old(self).spec_next_post_id()
                    == i64::MAX {
                    final(self).spec_posts() == posts0 && r == false
                } else {
                    final(self).spec_posts() == insert_post_spec(
                        posts0,
                        (Post {
                            id: old(self).spec_next_post_id(),
                            feed_id,
                            title,
                            url,
                            content,
                            pub_date,
                            is_read: false,
                            is_bookmarked: false,
                            is_archived: false,
                            is_read_later: false,
                            feed_title: feed_title_of(old(self).spec_feeds(), feed_id),
                        }),
                    ) && r == !url_present(posts0, url@)
                }
            }),
    {
        let fi = self.locate_feed(feed_id);
        match fi {
            None => false,
            Some(fi) => {
                if self.next_post_id == i64::MAX {
                    false
                } else if self.url_taken(&url) {
                    false
                } else {
                    let feed_title = crate::model::clone_opt_string(&self.feeds[fi].title);
                    let id = self.next_post_id;
                    self.next_post_id = self.next_post_id + 1;
                    let p = Post {
                        id,
                        feed_id,
                        title,
                        url,
                        content,
                        pub_date,
                        is_read: false,
                        is_bookmarked: false,
                        is_archived: false,
                        is_read_later: false,
                        feed_title,
                    };
                    self.posts.push(p);
                    true
                }
            },
        }
    }

    /// Set one flag of the post with identity `pid`; an unknown identity is
    /// a silent no-op. Returns whether a post was updated.
    pub fn set_flag(&mut self, pid: i64, flag: PostFlag, value: bool) -> (r: bool)
        requires
            old(self).wf(),
        ensures
            final(self).wf(),
            final(self).spec_next_post_id() == old(self).spec_next_post_id(),
            final(self).spec_next_feed_id() == old(self).spec_next_feed_id(),
            final(self).spec_feeds() == old(self).spec_feeds(),
            final(self).spec_explicit_categories() == old(self).spec_explicit_categories(),
            final(self).spec_posts() == set_flag_spec(old(self).spec_posts(), pid, flag, value),
            r == has_post(old(self).spec_posts(), pid),
    {
        let loc = self.locate_post(pid);
        match loc {
            None => {
                proof {
                    assert forall|i: int|
                        0 <= i < self.posts@.len() implies (#[trigger] self.posts@[i])
                        == set_flag_spec(self.posts@, pid, flag, value)[i] by {
                        assert(self.posts@[i].id != pid);
                    }
                    assert(self.posts@ =~= set_flag_spec(self.posts@, pid, flag, value));
                }
                false
            },
            Some(i) => {
                let p = self.posts[i].duplicate();
                let q = match flag {
                    PostFlag::Read => Post { is_read: value, ..p },
                    PostFlag::Bookmarked => Post { is_bookmarked: value, ..p },
                    PostFlag::Archived => Post { is_archived: value, ..p },
                    PostFlag::ReadLater => Post { is_read_later: value, ..p },
                };
                self.posts.set(i, q);
                proof {
                    let posts0 = old(self).posts@;
                    assert forall|t: int|
                        0 <= t < self.posts@.len() implies (#[trigger] self.posts@[t])
                        == set_flag_spec(posts0, pid, flag, value)[t] by {
                        if t != i as int {
                            assert(posts0[t].id != pid);
                        }
                    }
                    assert(self.posts@ =~= set_flag_spec(posts0, pid, flag, value));
                }
                true
            },
        }
    }

    /// Mark a post read.
    pub fn mark_as_read(&mut self, pid: i64) -> (r: bool)
        requires
            old(self).wf(),
        ensures
            final(self).wf(),
            final(self).spec_next_post_id() == old(self).spec_next_post_id(),
            final(self).spec_next_feed_id() == old(self).spec_next_feed_id(),
            final(self).spec_feeds() == old(self).spec_feeds(),
            final(self).spec_explicit_categories() == old(self).spec_explicit_categories(),
            final(self).spec_posts() == set_flag_spec(
                old(self).spec_posts(),
                pid,
                PostFlag::Read,
                true,
            ),
            r == has_post(old(self).spec_posts(), pid),
    {
        self.set_flag(pid, PostFlag::Read, true)
    }

    /// Mark a post unread.
    pub fn mark_as_unread(&mut self, pid: i64) -> (r: bool)
        requires
            old(self).wf(),
        ensures
            final(self).wf(),
            final(self).spec_next_post_id() == old(self).spec_next_post_id(),
            final(self).spec_next_feed_id() == old(self).spec_next_feed_id(),
            final(self).spec_feeds() == old(self).spec_feeds(),
            final(self).spec_explicit_categories() == old(self).spec_explicit_categories(),
            final(self).spec_posts() == set_flag_spec(
                old(self).spec_posts(),
                pid,
                PostFlag::Read,
                false,
            ),
            r == has_post(old(self).spec_posts(), pid),
    {
        self.set_flag(pid, PostFlag::Read, false)
    }

    /// Delete the post with identity `pid`; an unknown identity is a silent
    /// no-op. Returns whether a post was removed.
    pub fn delete_post(&mut self, pid: i64) -> (r: bool)
        requires
            old(self).wf(),
        ensures
            final(self).wf(),
            final(self).spec_next_post_id() == old(self).spec_next_post_id(),
            final(self).spec_next_feed_id() == old(self).spec_next_feed_id(),
            final(self).spec_feeds() == old(self).spec_feeds(),
            final(self).spec_explicit_categories() == old(self).spec_explicit_categories(),
            r == has_post(old(self).spec_posts(), pid),
            has_post(old(self).spec_posts(), pid) ==> final(self).spec_posts() == old(self).spec_posts().remove(post_index_of(old(self).spec_posts(), pid)),
            !has_post(old(self).spec_posts(), pid) ==> final(self).spec_posts() == old(self).spec_posts(),
    {
        let loc = self.locate_post(pid);
        match loc {
            None => false,
            Some(i) => {
                self.posts.remove(i);
                proof {
                    let posts0 = old(self).posts@;
                    let posts1 = self.posts@;
                    assert(posts1 == posts0.remove(i as int));
                    assert forall|a: int, b: int|
                        0 <= a < b < posts1.len() implies (#[trigger] posts1[a]).id
                        != (#[trigger] posts1[b]).id && posts1[a].url@ != posts1[b].url@ by {
                        let a0 = if a < i as int {
                            a
                        } else {
                            a + 1
                        };
                        let b0 = if b < i as int {
                            b
                        } else {
                            b + 1
                        };
                        assert(posts1[a] == posts0[a0] && posts1[b] == posts0[b0]);
                    }
                    assert forall|t: int|
                        0 <= t < posts1.len() implies has_feed(
                        self.feeds@,
                        (#[trigger] posts1[t]).feed_id,
                    ) by {
                        let t0 = if t < i as int {
                            t
                        } else {
                            t + 1
                        };
                        assert(posts1[t] == posts0[t0]);
                    }
                    assert forall|t: int|
                        0 <= t < posts1.len() implies 1 <= (#[trigger] posts1[t]).id
                        < self.next_post_id by {
                        let t0 = if t < i as int {
                            t
                        } else {
                            t + 1
                        };
                        assert(posts1[t] == posts0[t0]);
                    }
                }
                true
            },
        }
    }
}

impl Store {
    /// Snapshot the whole feed table.
    pub fn list_feeds(&self) -> (r: Vec<Feed>)
        ensures
            r@ == self.spec_feeds(),
    {
        let mut r: Vec<Feed> = Vec::new();
        let mut i: usize = 0;
        while i < self.feeds.len()
            invariant
                i <= self.feeds@.len(),
                r@ == self.feeds@.take(i as int),
            decreases self.feeds@.len() - i,
        {
            r.push(self.feeds[i].duplicate());
            proof {
                assert(self.feeds@.take(i + 1).drop_last() == self.feeds@.take(i as int));
                assert(self.feeds@.take(i + 1) == self.feeds@.take(i as int).push(
                    self.feeds@[i as int],
                ));
            }
            i += 1;
        }
        proof {
            assert(self.feeds@.take(self.feeds@.len() as int) == self.feeds@);
        }
        r
    }

    /// Snapshot the feeds filed under the category named `category`.
    pub fn list_feeds_by_category(&self, category: &String) -> (r: Vec<Feed>)
        ensures
            r@ == self.spec_feeds().filter(feed_in_cat_pred(category@)),
    {
        let ghost pred = feed_in_cat_pred(category@);
        let mut r: Vec<Feed> = Vec::new();
        let mut i: usize = 0;
        proof {
            assert(self.feeds@.take(0int).filter(pred) == Seq::<Feed>::empty());
        }
        while i < self.feeds.len()
            invariant
                i <= self.feeds@.len(),
                r@ == self.feeds@.take(i as int).filter(feed_in_cat_pred(category@)),
            decreases self.feeds@.len() - i,
        {
            let ghost pred = feed_in_cat_pred(category@);
            if string_eq(&self.feeds[i].category, category) {
                r.push(self.feeds[i].duplicate());
            }
            proof {
                broadcast use Seq::lemma_filter_push;

                assert(self.feeds@.take(i + 1).drop_last() == self.feeds@.take(i as int));
                assert(self.feeds@.take(i + 1) == self.feeds@.take(i as int).push(
                    self.feeds@[i as int],
                ));
            }
            i += 1;
        }
        proof {
            assert(self.feeds@.take(self.feeds@.len() as int) == self.feeds@);
        }
        r
    }

    /// Whether `p`'s owning feed carries the category named `cat`, decided
    /// executably.
    fn post_in_cat_exec(&self, p: &Post, cat: &String) -> (b: bool)
        requires
            self.wf(),
        ensures
            b == post_in_cat(self.spec_feeds(), *p, cat@),
    {
        let loc = self.locate_feed(p.feed_id);
        match loc {
            None => {
                proof {
                    if post_in_cat(self.feeds@, *p, cat@) {
                        let k = choose|k: int|
                            0 <= k < self.feeds@.len() && (#[trigger] self.feeds@[k]).id
                                == p.feed_id && self.feeds@[k].category@ == cat@;
                        assert(has_feed(self.feeds@, p.feed_id));
                    }
                }
                false
            },
            Some(i) => {
                let b = string_eq(&self.feeds[i].category, cat);
                proof {
                    if b {
                        assert(post_in_cat(self.feeds@, *p, cat@));
                    } else {
                        if post_in_cat(self.feeds@, *p, cat@) {
                            let k = choose|k: int|
                                0 <= k < self.feeds@.len() && (#[trigger] self.feeds@[k]).id
                                    == p.feed_id && self.feeds@[k].category@ == cat@;
                            assert(feed_ids_distinct(self.feeds@));
                            assert(k == i as int);
                            assert(false);
                        }
                    }
                }
                b
            },
        }
    }

    /// Count every post that passes `filter` (no window applied).
    pub fn count_posts(&self, filter: &PostFilter) -> (n: usize)
        ensures
            n == self.spec_posts().filter(matches_pred(*filter)).len(),
    {
        let ghost pred = matches_pred(*filter);
        let mut n: usize = 0;
        let mut i: usize = 0;
        proof {
            assert(self.posts@.take(0int).filter(pred) == Seq::<Post>::empty());
        }
        while i < self.posts.len()
            invariant
                i <= self.posts@.len(),
                n <= i,
                n == self.posts@.take(i as int).filter(matches_pred(*filter)).len(),
            decreases self.posts@.len() - i,
        {
            if self.posts[i].matches(filter) {
                n += 1;
            }
            proof {
                broadcast use Seq::lemma_filter_len_push;

                assert(self.posts@.take(i + 1).drop_last() == self.posts@.take(i as int));
                assert(self.posts@.take(i + 1) == self.posts@.take(i as int).push(
                    self.posts@[i as int],
                ));
            }
            i += 1;
        }
        proof {
            assert(self.posts@.take(self.posts@.len() as int) == self.posts@);
        }
        n
    }

    /// Count every post whose owning feed is filed under `cat`.
    pub fn count_posts_in_category(&self, cat: &String) -> (n: usize)
        requires
            self.wf(),
        ensures
            n == self.spec_posts().filter(in_cat_pred(self.spec_feeds(), cat@)).len(),
    {
        let ghost pred = in_cat_pred(self.spec_feeds(), cat@);
        let mut n: usize = 0;
        let mut i: usize = 0;
        proof {
            assert(self.posts@.take(0int).filter(pred) == Seq::<Post>::empty());
        }
        while i < self.posts.len()
            invariant
                self.wf(),
                i <= self.posts@.len(),
                n <= i,
                n == self.posts@.take(i as int).filter(
                    in_cat_pred(self.spec_feeds(), cat@),
                ).len(),
            decreases self.posts@.len() - i,
        {
            let p = &self.posts[i];
            if self.post_in_cat_exec(p, cat) {
                n += 1;
            }
            proof {
                broadcast use Seq::lemma_filter_len_push;

                assert(self.posts@.take(i + 1).drop_last() == self.posts@.take(i as int));
                assert(self.posts@.take(i + 1) == self.posts@.take(i as int).push(
                    self.posts@[i as int],
                ));
            }
            i += 1;
        }
        proof {
            assert(self.posts@.take(self.posts@.len() as int) == self.posts@);
        }
        n
    }

    /// Collect copies of the stored posts that pass `filter`, in table order.
    fn collect_posts(&self, filter: &PostFilter) -> (r: Vec<Post>)
        ensures
            r@ == self.spec_posts().filter(matches_pred(*filter)),
    {
        let ghost pred = matches_pred(*filter);
        let mut r: Vec<Post> = Vec::new();
        let mut i: usize = 0;
        proof {
            assert(self.posts@.take(0int).filter(pred) == Seq::<Post>::empty());
        }
        while i < self.posts.len()
            invariant
                i <= self.posts@.len(),
                r@ == self.posts@.take(i as int).filter(matches_pred(*filter)),
            decreases self.posts@.len() - i,
        {
            if self.posts[i].matches(filter) {
                r.push(self.posts[i].duplicate());
            }
            proof {
                broadcast use Seq::lemma_filter_push;

                assert(self.posts@.take(i + 1).drop_last() == self.posts@.take(i as int));
                assert(self.posts@.take(i + 1) == self.posts@.take(i as int).push(
                    self.posts@[i as int],
                ));
            }
            i += 1;
        }
        proof {
            assert(self.posts@.take(self.posts@.len() as int) == self.posts@);
        }
        r
    }

    /// Collect copies of the unread stored posts filed under `cat` when
    /// `unread_only`, or of all posts filed under `cat` otherwise.
    fn collect_category_posts(&self, cat: &String, unread_only: bool) -> (r: Vec<Post>)
        requires
            self.wf(),
        ensures
            unread_only ==> r@ == self.spec_posts().filter(
                unread_in_cat_pred(self.spec_feeds(), cat@),
            ),
            !unread_only ==> r@ == self.spec_posts().filter(
                in_cat_pred(self.spec_feeds(), cat@),
            ),
    {
        let mut r: Vec<Post> = Vec::new();
        let mut i: usize = 0;
        proof {
            assert(self.posts@.take(0int).filter(unread_in_cat_pred(self.spec_feeds(), cat@))
                == Seq::<Post>::empty());
            assert(self.posts@.take(0int).filter(in_cat_pred(self.spec_feeds(), cat@))
                == Seq::<Post>::empty());
        }
        while i < self.posts.len()
            invariant
                self.wf(),
                i <= self.posts@.len(),
                unread_only ==> r@ == self.posts@.take(i as int).filter(
                    unread_in_cat_pred(self.spec_feeds(), cat@),
                ),
                !unread_only ==> r@ == self.posts@.take(i as int).filter(
                    in_cat_pred(self.spec_feeds(), cat@),
                ),
            decreases self.posts@.len() - i,
        {
            let keep = (!unread_only || !self.posts[i].is_read) && self.post_in_cat_exec(
                &self.posts[i],
                cat,
            );
            if keep {
                r.push(self.posts[i].duplicate());
            }
            proof {
                broadcast use Seq::lemma_filter_push;

                assert(self.posts@.take(i + 1).drop_last() == self.posts@.take(i as int));
                assert(self.posts@.take(i + 1) == self.posts@.take(i as int).push(
                    self.posts@[i as int],
                ));
            }
            i += 1;
        }
        proof {
            assert(self.posts@.take(self.posts@.len() as int) == self.posts@);
        }
        r
    }

    /// Materialize the flag-filtered view: matching posts, newest first,
    /// within the bounded window.
    pub fn query_posts(&self, filter: &PostFilter) -> (r: Vec<Post>)
        ensures
            is_capped_listing(self.spec_posts(), matches_pred(*filter), POST_WINDOW as int, r@),
    {
        let picked = self.collect_posts(filter);
        rank_and_cap(picked, POST_WINDOW, Ghost(self.spec_posts()), Ghost(matches_pred(*filter)))
    }

    /// Materialize one category's view: its posts, newest first, within the
    /// bounded window.
    pub fn query_posts_by_category(&self, category: &String) -> (r: Vec<Post>)
        requires
            self.wf(),
        ensures
            is_capped_listing(
                self.spec_posts(),
                in_cat_pred(self.spec_feeds(), category@),
                POST_WINDOW as int,
                r@,
            ),
    {
        let picked = self.collect_category_posts(category, false);
        rank_and_cap(
            picked,
            POST_WINDOW,
            Ghost(self.spec_posts()),
            Ghost(in_cat_pred(self.spec_feeds(), category@)),
        )
    }

    /// Snapshot the whole post table, in table order.
    pub fn all_posts(&self) -> (r: Vec<Post>)
        ensures
            r@ == self.spec_posts(),
    {
        let mut r: Vec<Post> = Vec::new();
        let mut i: usize = 0;
        while i < self.posts.len()
            invariant
                i <= self.posts@.len(),
                r@ == self.posts@.take(i as int),
            decreases self.posts@.len() - i,
        {
            r.push(self.posts[i].duplicate());
            proof {
                assert(self.posts@.take(i + 1).drop_last() == self.posts@.take(i as int));
                assert(self.posts@.take(i + 1) == self.posts@.take(i as int).push(
                    self.posts@[i as int],
                ));
            }
            i += 1;
        }
        proof {
            assert(self.posts@.take(self.posts@.len() as int) == self.posts@);
        }
        r
    }

    /// The number of stored posts.
    pub fn get_total_posts_count(&self) -> (n: usize)
        ensures
            n == self.spec_posts().len(),
    {
        self.posts.len()
    }

    /// The number of subscribed feeds.
    pub fn get_total_feeds_count(&self) -> (n: usize)
        ensures
            n == self.spec_feeds().len(),
    {
        self.feeds.len()
    }
}


impl Store {
    /// The category list: the union of the explicitly created categories
    /// and the feed categories, deduplicated and sorted ascending by name.
    pub open spec fn spec_categories(self) -> Seq<String> {
        crate::order::sort_names(
            dedup_names(
                self.spec_explicit_categories(),
                self.spec_feeds().map_values(|f: Feed| f.category),
            ),
        )
    }

    /// List the known categories: the union of the explicitly created
    /// names and the feed categories, deduplicated and sorted ascending by
    /// name; "General" is always among them.
    pub fn list_categories(&self) -> (r: Vec<String>)
        requires
            self.wf(),
        ensures
            r@ == self.spec_categories(),
            crate::order::sorted_names(r@),
            names_distinct(r@),
            name_in(r@, "General"@),
    {
        let mut r = crate::model::clone_names(&self.explicit_categories);
        let mut i: usize = 0;
        proof {
            let extras = self.feeds@.map_values(|f: Feed| f.category);
            assert(extras.take(0int) =~= Seq::<String>::empty());
            assert(dedup_names(self.explicit_categories@, extras.take(0int))
                == self.explicit_categories@);
        }
        while i < self.feeds.len()
            invariant
                self.wf(),
                i <= self.feeds@.len(),
                r@ == dedup_names(
                    self.explicit_categories@,
                    self.feeds@.map_values(|f: Feed| f.category).take(i as int),
                ),
            decreases self.feeds@.len() - i,
        {
            let present = crate::model::contains_name(&r, &self.feeds[i].category);
            let ghost prev = r@;
            if !present {
                r.push(self.feeds[i].category.clone());
            }
            proof {
                let extras = self.feeds@.map_values(|f: Feed| f.category);
                let e = extras.take(i + 1);
                assert(e.len() == i + 1);
                assert(e.drop_last() =~= extras.take(i as int));
                assert(e.last() == extras[i as int]);
                assert(extras[i as int] == self.feeds@[i as int].category);
                assert(dedup_names(self.explicit_categories@, e) == if name_in(
                    prev,
                    self.feeds@[i as int].category@,
                ) {
                    prev
                } else {
                    prev.push(self.feeds@[i as int].category)
                });
            }
            i += 1;
        }
        proof {
            let extras = self.feeds@.map_values(|f: Feed| f.category);
            assert(extras.take(extras.len() as int) =~= extras);
            assert(r@ == dedup_names(self.explicit_categories@, extras));
            lemma_dedup_names_props(self.explicit_categories@, extras);
            let k = choose|k: int|
                0 <= k < self.explicit_categories@.len()
                    && (#[trigger] self.explicit_categories@[k])@ == "General"@;
            assert(name_in(self.explicit_categories@, "General"@));
        }
        let sorted = crate::order::sort_names_exec(r);
        proof {
            assert(name_in(sorted@, "General"@));
        }
        sorted
    }

    /// Create a category explicitly; an existing name is kept as is.
    /// Returns whether a new category was created.
    pub fn add_category(&mut self, name: String) -> (r: bool)
        requires
            old(self).wf(),
        ensures
            final(self).wf(),
            final(self).spec_next_post_id() == old(self).spec_next_post_id(),
            final(self).spec_next_feed_id() == old(self).spec_next_feed_id(),
            final(self).spec_feeds() == old(self).spec_feeds(),
            final(self).spec_posts() == old(self).spec_posts(),
            r == !name_in(old(self).spec_explicit_categories(), name@),
            r ==> final(self).spec_explicit_categories() == old(self).spec_explicit_categories().push(name),
            !r ==> final(self).spec_explicit_categories() == old(self).spec_explicit_categories(),
    {
        let present = crate::model::contains_name(&self.explicit_categories, &name);
        if present {
            false
        } else {
            self.explicit_categories.push(name);
            proof {
                let cats0 = old(self).explicit_categories@;
                let cats1 = self.explicit_categories@;
                assert forall|a: int, b: int| 0 <= a < b < cats1.len() implies (
                #[trigger] cats1[a])@ != (#[trigger] cats1[b])@ by {
                    if b == cats1.len() - 1 {
                        assert(cats1[a] == cats0[a]);
                    } else {
                        assert(cats1[a] == cats0[a] && cats1[b] == cats0[b]);
                    }
                }
                let k = choose|k: int|
                    0 <= k < cats0.len() && (#[trigger] cats0[k])@ == "General"@;
                assert(cats1[k]@ == "General"@);
            }
            true
        }
    }

    /// Re-file one feed under `category`; an unknown feed identity is a
    /// silent no-op. Returns whether a feed was updated.
    pub fn update_feed_category(&mut self, feed_id: i64, category: String) -> (r: bool)
        requires
            old(self).wf(),
        ensures
            final(self).wf(),
            final(self).spec_next_post_id() == old(self).spec_next_post_id(),
            final(self).spec_next_feed_id() == old(self).spec_next_feed_id(),
            final(self).spec_posts() == old(self).spec_posts(),
            final(self).spec_explicit_categories() == old(self).spec_explicit_categories(),
            r == has_feed(old(self).spec_feeds(), feed_id),
            final(self).spec_feeds().len() == old(self).spec_feeds().len(),
            forall|t: int|
                0 <= t < old(self).spec_feeds().len() ==> {
                    let f0 = #[trigger] old(self).spec_feeds()[t];
                    let f1 = final(self).spec_feeds()[t];
                    f1.id == f0.id && f1.url == f0.url && f1.title == f0.title && f1.category
                        == (if f0.id == feed_id {
                        category
                    } else {
                        f0.category
                    })
                },
    {
        let loc = self.locate_feed(feed_id);
        match loc {
            None => false,
            Some(i) => {
                let f = self.feeds[i].duplicate();
                let g = Feed { category, ..f };
                self.feeds.set(i, g);
                proof {
                    let feeds0 = old(self).feeds@;
                    let feeds1 = self.feeds@;
                    assert forall|t: int| 0 <= t < feeds1.len() implies (
                    #[trigger] feeds1[t]).id == feeds0[t].id && feeds1[t].url
                        == feeds0[t].url by {
                        if t != i as int {
                            assert(feeds1[t] == feeds0[t]);
                        }
                    }
                    assert forall|t: int|
                        0 <= t < self.posts@.len() implies has_feed(
                        feeds1,
                        (#[trigger] self.posts@[t]).feed_id,
                    ) by {
                        let k = choose|k: int|
                            0 <= k < feeds0.len() && (#[trigger] feeds0[k]).id
                                == self.posts@[t].feed_id;
                        assert(feeds1[k].id == self.posts@[t].feed_id);
                    }
                    assert forall|t: int|
                        0 <= t < feeds0.len() implies (#[trigger] feeds0[t]).id == feed_id
                        ==> t == i as int by {
                        if feeds0[t].id == feed_id && t != i as int {
                            assert(feeds0[i as int].id == feed_id);
                            assert(false);
                        }
                    }
                }
                true
            },
        }
    }

    /// Delete a category: its feeds are re-filed under "General" and the
    /// name leaves the category list. "General" itself is never deleted;
    /// callers reject it before reaching the store.
    pub fn delete_category(&mut self, name: &String) -> (r: bool)
        requires
            old(self).wf(),
            name@ != "General"@,
        ensures
            final(self).wf(),
            final(self).spec_next_post_id() == old(self).spec_next_post_id(),
            final(self).spec_next_feed_id() == old(self).spec_next_feed_id(),
            final(self).spec_posts() == old(self).spec_posts(),
            final(self).spec_feeds().len() == old(self).spec_feeds().len(),
            forall|t: int|
                0 <= t < old(self).spec_feeds().len() ==> {
                    let f0 = #[trigger] old(self).spec_feeds()[t];
                    let f1 = final(self).spec_feeds()[t];
                    f1.id == f0.id && f1.url == f0.url && f1.title == f0.title && f1.category@
                        == (if f0.category@ == name@ {
                        "General"@
                    } else {
                        f0.category@
                    }) && (f0.category@ != name@ ==> f1.category == f0.category)
                },
            final(self).spec_explicit_categories() == old(self).spec_explicit_categories().filter(|c: String| c@ != name@),
            !name_in(final(self).spec_categories(), name@),
            r == true,
    {
        let ghost feeds0 = self.feeds@;
        let mut i: usize = 0;
        while i < self.feeds.len()
            invariant
                old(self).wf(),
                name@ != "General"@,
                i <= feeds0.len(),
                self.posts@ == old(self).posts@,
                self.explicit_categories@ == old(self).explicit_categories@,
                self.next_feed_id == old(self).next_feed_id,
                self.next_post_id == old(self).next_post_id,
                feeds0 == old(self).feeds@,
                self.feeds@.len() == feeds0.len(),
                forall|t: int|
                    i <= t < feeds0.len() ==> #[trigger] self.feeds@[t] == feeds0[t],
                forall|t: int|
                    0 <= t < i ==> {
                        let f0 = #[trigger] feeds0[t];
                        let f1 = self.feeds@[t];
                        f1.id == f0.id && f1.url == f0.url && f1.title == f0.title
                            && f1.category@ == (if f0.category@ == name@ {
                            "General"@
                        } else {
                            f0.category@
                        }) && (f0.category@ != name@ ==> f1.category == f0.category)
                    },
            decreases feeds0.len() - i,
        {
            if string_eq(&self.feeds[i].category, name) {
                let f = self.feeds[i].duplicate();
                let g = Feed { category: "General".to_owned(), ..f };
                self.feeds.set(i, g);
            }
            i += 1;
        }
        let ghost cats0 = self.explicit_categories@;
        let mut kept: Vec<String> = Vec::new();
        let mut j: usize = 0;
        proof {
            assert(cats0.take(0int).filter(|c: String| c@ != name@) == Seq::<String>::empty());
        }
        while j < self.explicit_categories.len()
            invariant
                j <= cats0.len(),
                cats0 == self.explicit_categories@,
                kept@ == cats0.take(j as int).filter(|c: String| c@ != name@),
            decreases cats0.len() - j,
        {
            if !string_eq(&self.explicit_categories[j], name) {
                kept.push(self.explicit_categories[j].clone());
            }
            proof {
                broadcast use Seq::lemma_filter_push;

                assert(cats0.take(j + 1).drop_last() == cats0.take(j as int));
                assert(cats0.take(j + 1) == cats0.take(j as int).push(cats0[j as int]));
            }
            j += 1;
        }
        proof {
            assert(cats0.take(cats0.len() as int) == cats0);
        }
        self.explicit_categories = kept;
        proof {
            broadcast use Seq::lemma_filter_contains;
            broadcast use Seq::lemma_filter_pred;
            broadcast use Seq::lemma_filter_contains_rev;

            let feeds1 = self.feeds@;
            let cats1 = self.explicit_categories@;
            let keep = |c: String| c@ != name@;
            crate::order::lemma_filter_keeps_distinct(cats0, keep, |c: String| c@);
            let k = choose|k: int| 0 <= k < cats0.len() && (#[trigger] cats0[k])@ == "General"@;
            assert(keep(cats0[k]));
            assert(cats0.filter(keep).contains(cats0[k]));
            let m = choose|m: int| 0 <= m < cats1.len() && cats1[m] == cats0[k];
            assert(name_in(cats1, "General"@));
            assert forall|a: int, b: int| 0 <= a < b < feeds1.len() implies (
            #[trigger] feeds1[a]).id != (#[trigger] feeds1[b]).id && feeds1[a].url@
                != feeds1[b].url@ by {
                assert(feeds1[a].id == feeds0[a].id && feeds1[b].id == feeds0[b].id);
                assert(feeds1[a].url == feeds0[a].url && feeds1[b].url == feeds0[b].url);
            }
            assert forall|t: int|
                0 <= t < self.posts@.len() implies has_feed(
                feeds1,
                (#[trigger] self.posts@[t]).feed_id,
            ) by {
                let w = choose|w: int|
                    0 <= w < feeds0.len() && (#[trigger] feeds0[w]).id == self.posts@[t].feed_id;
                assert(feeds1[w].id == self.posts@[t].feed_id);
            }
            assert forall|t: int|
                0 <= t < feeds1.len() implies 1 <= (#[trigger] feeds1[t]).id
                < self.next_feed_id by {
                assert(feeds1[t].id == feeds0[t].id);
            }
            // The deleted name is gone from the category list.
            lemma_dedup_names_props(cats1, feeds1.map_values(|f: Feed| f.category));
            crate::order::lemma_sort_names_names(
                dedup_names(cats1, feeds1.map_values(|f: Feed| f.category)),
            );
            if name_in(self.spec_categories(), name@) {
                assert(name_in(cats1, name@) || name_in(
                    feeds1.map_values(|f: Feed| f.category),
                    name@,
                ));
                if name_in(cats1, name@) {
                    let w = choose|w: int|
                        0 <= w < cats1.len() && (#[trigger] cats1[w])@ == name@;
                    assert(cats1[w] == cats0.filter(keep)[w]);
                    assert(keep(cats0.filter(keep)[w]));
                    assert(false);
                } else {
                    let mapped = feeds1.map_values(|f: Feed| f.category);
                    let w = choose|w: int| 0 <= w < mapped.len() && (#[trigger] mapped[w])@ == name@;
                    assert(mapped[w] == feeds1[w].category);
                    assert(feeds1[w].category@ == name@);
                    assert(feeds0[w] == feeds0[w]);
                    assert(feeds1[w].category@ == (if feeds0[w].category@ == name@ {
                        "General"@
                    } else {
                        feeds0[w].category@
                    }));
                    assert(false);
                }
            }
        }
        true
    }

    /// Rename a category: feeds are re-filed under the new name; the old
    /// name leaves the explicit list, and the new name joins it when the old
    /// name was there and the new one was not. "General" cannot be renamed.
    pub fn rename_category(&mut self, old_name: &String, new_name: &String) -> (r: bool)
        requires
            old(self).wf(),
            old_name@ != "General"@,
        ensures
            final(self).wf(),
            final(self).spec_next_post_id() == old(self).spec_next_post_id(),
            final(self).spec_next_feed_id() == old(self).spec_next_feed_id(),
            final(self).spec_posts() == old(self).spec_posts(),
            final(self).spec_feeds().len() == old(self).spec_feeds().len(),
            forall|t: int|
                0 <= t < old(self).spec_feeds().len() ==> {
                    let f0 = #[trigger] old(self).spec_feeds()[t];
                    let f1 = final(self).spec_feeds()[t];
                    f1.id == f0.id && f1.url == f0.url && f1.title == f0.title && f1.category@
                        == (if f0.category@ == old_name@ {
                        new_name@
                    } else {
                        f0.category@
                    }) && (f0.category@ != old_name@ ==> f1.category == f0.category)
                },
            ({
                let kept = old(self).spec_explicit_categories().filter(
                    |c: String| c@ != old_name@,
                );
                if name_in(old(self).spec_explicit_categories(), old_name@) && !name_in(
                    old(self).spec_explicit_categories(),
                    new_name@,
                ) {
                    final(self).spec_explicit_categories() =~= kept.push(*new_name)
                } else {
                    final(self).spec_explicit_categories() == kept
                }
            }),
            r == true,
    {
        let ghost feeds0 = self.feeds@;
        let mut i: usize = 0;
        while i < self.feeds.len()
            invariant
                old(self).wf(),
                old_name@ != "General"@,
                i <= feeds0.len(),
                self.posts@ == old(self).posts@,
                self.explicit_categories@ == old(self).explicit_categories@,
                self.next_feed_id == old(self).next_feed_id,
                self.next_post_id == old(self).next_post_id,
                feeds0 == old(self).feeds@,
                self.feeds@.len() == feeds0.len(),
                forall|t: int|
                    i <= t < feeds0.len() ==> #[trigger] self.feeds@[t] == feeds0[t],
                forall|t: int|
                    0 <= t < i ==> {
                        let f0 = #[trigger] feeds0[t];
                        let f1 = self.feeds@[t];
                        f1.id == f0.id && f1.url == f0.url && f1.title == f0.title
                            && f1.category@ == (if f0.category@ == old_name@ {
                            new_name@
                        } else {
                            f0.category@
                        }) && (f0.category@ != old_name@ ==> f1.category == f0.category)
                    },
            decreases feeds0.len() - i,
        {
            if string_eq(&self.feeds[i].category, old_name) {
                let f = self.feeds[i].duplicate();
                let g = Feed { category: new_name.clone(), ..f };
                self.feeds.set(i, g);
            }
            i += 1;
        }
        let had_old = crate::model::contains_name(&self.explicit_categories, old_name);
        let had_new = crate::model::contains_name(&self.explicit_categories, new_name);
        let ghost cats0 = self.explicit_categories@;
        let mut kept: Vec<String> = Vec::new();
        let mut j: usize = 0;
        proof {
            assert(cats0.take(0int).filter(|c: String| c@ != old_name@)
                == Seq::<String>::empty());
        }
        while j < self.explicit_categories.len()
            invariant
                j <= cats0.len(),
                cats0 == self.explicit_categories@,
                kept@ == cats0.take(j as int).filter(|c: String| c@ != old_name@),
            decreases cats0.len() - j,
        {
            if !string_eq(&self.explicit_categories[j], old_name) {
                kept.push(self.explicit_categories[j].clone());
            }
            proof {
                broadcast use Seq::lemma_filter_push;

                assert(cats0.take(j + 1).drop_last() == cats0.take(j as int));
                assert(cats0.take(j + 1) == cats0.take(j as int).push(cats0[j as int]));
            }
            j += 1;
        }
        proof {
            assert(cats0.take(cats0.len() as int) == cats0);
        }
        if had_old && !had_new {
            kept.push(new_name.clone());
        }
        self.explicit_categories = kept;
        proof {
            broadcast use Seq::lemma_filter_contains;
            broadcast use Seq::lemma_filter_pred;
            broadcast use Seq::lemma_filter_contains_rev;

            let feeds1 = self.feeds@;
            let cats1 = self.explicit_categories@;
            let keep = |c: String| c@ != old_name@;
            let kept_seq = cats0.filter(keep);
            crate::order::lemma_filter_keeps_distinct(cats0, keep, |c: String| c@);
            let k = choose|k: int| 0 <= k < cats0.len() && (#[trigger] cats0[k])@ == "General"@;
            assert(keep(cats0[k]));
            assert(kept_seq.contains(cats0[k]));
            let m = choose|m: int| 0 <= m < kept_seq.len() && kept_seq[m] == cats0[k];
            if had_old && !had_new {
                assert(cats1 == kept_seq.push(*new_name));
                assert forall|a: int, b: int| 0 <= a < b < cats1.len() implies (
                #[trigger] cats1[a])@ != (#[trigger] cats1[b])@ by {
                    if b == cats1.len() - 1 {
                        assert(kept_seq.contains(kept_seq[a]));
                        assert(cats0.contains(kept_seq[a]));
                        let w = choose|w: int|
                            0 <= w < cats0.len() && cats0[w] == kept_seq[a];
                        if cats1[b]@ == cats1[a]@ {
                            assert(name_in(cats0, new_name@));
                            assert(false);
                        }
                    } else {
                        assert(cats1[a] == kept_seq[a] && cats1[b] == kept_seq[b]);
                    }
                }
                assert(cats1[m]@ == "General"@);
                assert(name_in(cats1, "General"@));
            } else {
                assert(cats1 == kept_seq);
                assert(cats1[m]@ == "General"@);
                assert(name_in(cats1, "General"@));
            }
            assert forall|a: int, b: int| 0 <= a < b < feeds1.len() implies (
            #[trigger] feeds1[a]).id != (#[trigger] feeds1[b]).id && feeds1[a].url@
                != feeds1[b].url@ by {
                assert(feeds1[a].id == feeds0[a].id && feeds1[b].id == feeds0[b].id);
                assert(feeds1[a].url == feeds0[a].url && feeds1[b].url == feeds0[b].url);
            }
            assert forall|t: int|
                0 <= t < self.posts@.len() implies has_feed(
                feeds1,
                (#[trigger] self.posts@[t]).feed_id,
            ) by {
                let w = choose|w: int|
                    0 <= w < feeds0.len() && (#[trigger] feeds0[w]).id == self.posts@[t].feed_id;
                assert(feeds1[w].id == self.posts@[t].feed_id);
            }
            assert forall|t: int|
                0 <= t < feeds1.len() implies 1 <= (#[trigger] feeds1[t]).id
                < self.next_feed_id by {
                assert(feeds1[t].id == feeds0[t].id);
            }
        }
        true
    }

    /// Unsubscribe a feed, cascading to its posts; an unknown identity is a
    /// silent no-op. Returns whether a feed was removed.
    pub fn delete_feed(&mut self, feed_id: i64) -> (r: bool)
        requires
            old(self).wf(),
        ensures
            final(self).wf(),
            final(self).spec_next_post_id() == old(self).spec_next_post_id(),
            final(self).spec_next_feed_id() == old(self).spec_next_feed_id(),
            final(self).spec_explicit_categories() == old(self).spec_explicit_categories(),
            r == has_feed(old(self).spec_feeds(), feed_id),
            final(self).spec_feeds() == old(self).spec_feeds().filter(
                |f: Feed| f.id != feed_id,
            ),
            final(self).spec_posts() == old(self).spec_posts().filter(
                |p: Post| p.feed_id != feed_id,
            ),
    {
        let ghost feeds0 = self.feeds@;
        let ghost posts0 = self.posts@;
        let found = match self.locate_feed(feed_id) {
            Some(_) => true,
            None => false,
        };
        let mut new_posts: Vec<Post> = Vec::new();
        let mut i: usize = 0;
        proof {
            assert(posts0.take(0int).filter(|p: Post| p.feed_id != feed_id)
                == Seq::<Post>::empty());
        }
        while i < self.posts.len()
            invariant
                i <= posts0.len(),
                posts0 == self.posts@,
                new_posts@ == posts0.take(i as int).filter(|p: Post| p.feed_id != feed_id),
            decreases posts0.len() - i,
        {
            if self.posts[i].feed_id != feed_id {
                new_posts.push(self.posts[i].duplicate());
            }
            proof {
                broadcast use Seq::lemma_filter_push;

                assert(posts0.take(i + 1).drop_last() == posts0.take(i as int));
                assert(posts0.take(i + 1) == posts0.take(i as int).push(posts0[i as int]));
            }
            i += 1;
        }
        let mut new_feeds: Vec<Feed> = Vec::new();
        let mut j: usize = 0;
        proof {
            assert(posts0.take(posts0.len() as int) == posts0);
            assert(feeds0.take(0int).filter(|f: Feed| f.id != feed_id)
                == Seq::<Feed>::empty());
        }
        while j < self.feeds.len()
            invariant
                j <= feeds0.len(),
                feeds0 == self.feeds@,
                new_feeds@ == feeds0.take(j as int).filter(|f: Feed| f.id != feed_id),
            decreases feeds0.len() - j,
        {
            if self.feeds[j].id != feed_id {
                new_feeds.push(self.feeds[j].duplicate());
            }
            proof {
                broadcast use Seq::lemma_filter_push;

                assert(feeds0.take(j + 1).drop_last() == feeds0.take(j as int));
                assert(feeds0.take(j + 1) == feeds0.take(j as int).push(feeds0[j as int]));
            }
            j += 1;
        }
        self.posts = new_posts;
        self.feeds = new_feeds;
        proof {
            broadcast use Seq::lemma_filter_contains;
            broadcast use Seq::lemma_filter_pred;
            broadcast use Seq::lemma_filter_contains_rev;

            assert(feeds0.take(feeds0.len() as int) == feeds0);
            let keep_f = |f: Feed| f.id != feed_id;
            let keep_p = |p: Post| p.feed_id != feed_id;
            let feeds1 = self.feeds@;
            let posts1 = self.posts@;
            crate::order::lemma_filter_keeps_distinct(feeds0, keep_f, |f: Feed| f.id);
            crate::order::lemma_filter_keeps_distinct(feeds0, keep_f, |f: Feed| f.url@);
            crate::order::lemma_filter_keeps_distinct(posts0, keep_p, |p: Post| p.id);
            crate::order::lemma_filter_keeps_distinct(posts0, keep_p, |p: Post| p.url@);
            assert forall|t: int|
                0 <= t < posts1.len() implies has_feed(
                feeds1,
                (#[trigger] posts1[t]).feed_id,
            ) by {
                assert(posts1[t] == posts0.filter(keep_p)[t]);
                assert(posts0.filter(keep_p).contains(posts0.filter(keep_p)[t]));
                assert(posts0.contains(posts1[t]));
                let u = choose|u: int| 0 <= u < posts0.len() && posts0[u] == posts1[t];
                assert(has_feed(feeds0, posts0[u].feed_id));
                let w = choose|w: int|
                    0 <= w < feeds0.len() && (#[trigger] feeds0[w]).id == posts0[u].feed_id;
                assert(keep_f(feeds0[w]));
                assert(feeds1.contains(feeds0[w]));
                let v = choose|v: int| 0 <= v < feeds1.len() && feeds1[v] == feeds0[w];
                assert(feeds1[v].id == posts1[t].feed_id);
            }
            assert forall|t: int|
                0 <= t < feeds1.len() implies 1 <= (#[trigger] feeds1[t]).id
                < self.next_feed_id by {
                assert(feeds1[t] == feeds0.filter(keep_f)[t]);
                assert(feeds0.filter(keep_f).contains(feeds0.filter(keep_f)[t]));
                assert(feeds0.contains(feeds1[t]));
                let u = choose|u: int| 0 <= u < feeds0.len() && feeds0[u] == feeds1[t];
            }
            assert forall|t: int|
                0 <= t < posts1.len() implies 1 <= (#[trigger] posts1[t]).id
                < self.next_post_id by {
                assert(posts1[t] == posts0.filter(keep_p)[t]);
                assert(posts0.filter(keep_p).contains(posts0.filter(keep_p)[t]));
                assert(posts0.contains(posts1[t]));
                let u = choose|u: int| 0 <= u < posts0.len() && posts0[u] == posts1[t];
            }
            if !has_feed(feeds0, feed_id) {
                crate::order::lemma_filter_all(feeds0, keep_f);
                crate::order::lemma_filter_all(posts0, keep_p);
                assert forall|t: int|
                    0 <= t < posts0.len() implies keep_p(#[trigger] posts0[t]) by {
                    if posts0[t].feed_id == feed_id {
                        let w = choose|w: int|
                            0 <= w < feeds0.len() && (#[trigger] feeds0[w]).id
                                == posts0[t].feed_id;
                        assert(has_feed(feeds0, feed_id));
                    }
                }
            }
        }
        found
    }

    /// Drop every stored feed, post, and category; only "General" remains.
    pub fn reset(&mut self)
        ensures
            final(self).wf(),
            final(self).spec_feeds() == Seq::<Feed>::empty(),
            final(self).spec_posts() == Seq::<Post>::empty(),
            final(self).spec_explicit_categories().len() == 1,
            final(self).spec_explicit_categories()[0]@ == "General"@,
    {
        let fresh = Store::new();
        *self = fresh;
    }

    /// Drop every post that is not bookmarked.
    pub fn cleanup_non_bookmarked_posts(&mut self)
        requires
            old(self).wf(),
        ensures
            final(self).wf(),
            final(self).spec_next_post_id() == old(self).spec_next_post_id(),
            final(self).spec_next_feed_id() == old(self).spec_next_feed_id(),
            final(self).spec_feeds() == old(self).spec_feeds(),
            final(self).spec_explicit_categories() == old(self).spec_explicit_categories(),
            final(self).spec_posts() == old(self).spec_posts().filter(
                |p: Post| p.is_bookmarked,
            ),
    {
        let ghost posts0 = self.posts@;
        let mut kept: Vec<Post> = Vec::new();
        let mut i: usize = 0;
        proof {
            assert(posts0.take(0int).filter(|p: Post| p.is_bookmarked)
                == Seq::<Post>::empty());
        }
        while i < self.posts.len()
            invariant
                i <= posts0.len(),
                posts0 == self.posts@,
                kept@ == posts0.take(i as int).filter(|p: Post| p.is_bookmarked),
            decreases posts0.len() - i,
        {
            if self.posts[i].is_bookmarked {
                kept.push(self.posts[i].duplicate());
            }
            proof {
                broadcast use Seq::lemma_filter_push;

                assert(posts0.take(i + 1).drop_last() == posts0.take(i as int));
                assert(posts0.take(i + 1) == posts0.take(i as int).push(posts0[i as int]));
            }
            i += 1;
        }
        self.posts = kept;
        proof {
            broadcast use Seq::lemma_filter_contains_rev;
            broadcast use Seq::lemma_filter_pred;

            assert(posts0.take(posts0.len() as int) == posts0);
            let keep = |p: Post| p.is_bookmarked;
            let posts1 = self.posts@;
            crate::order::lemma_filter_keeps_distinct(posts0, keep, |p: Post| p.id);
            crate::order::lemma_filter_keeps_distinct(posts0, keep, |p: Post| p.url@);
            assert forall|t: int|
                0 <= t < posts1.len() implies has_feed(
                self.feeds@,
                (#[trigger] posts1[t]).feed_id,
            ) && 1 <= posts1[t].id < self.next_post_id by {
                assert(posts1[t] == posts0.filter(keep)[t]);
                assert(posts0.filter(keep).contains(posts0.filter(keep)[t]));
                assert(posts0.contains(posts1[t]));
                let u = choose|u: int| 0 <= u < posts0.len() && posts0[u] == posts1[t];
            }
        }
    }

    /// Drop every post published before the cutoff `days` days before `now`
    /// (seconds since the Unix epoch), keeping bookmarked posts and posts
    /// with no publish date. Returns how many posts were dropped.
    pub fn cleanup_old_posts(&mut self, now: i64, days: u32) -> (n: usize)
        requires
            old(self).wf(),
            now >= 0,
        ensures
            final(self).wf(),
            final(self).spec_next_post_id() == old(self).spec_next_post_id(),
            final(self).spec_next_feed_id() == old(self).spec_next_feed_id(),
            final(self).spec_feeds() == old(self).spec_feeds(),
            final(self).spec_explicit_categories() == old(self).spec_explicit_categories(),
            final(self).spec_posts() == old(self).spec_posts().filter(
                |p: Post| p.is_bookmarked || match p.pub_date {
                    Some(d) => d >= now - (days as i64) * 86400,
                    None => true,
                },
            ),
            n == old(self).spec_posts().len() - final(self).spec_posts().len(),
    {
        let cutoff: i64 = now - (days as i64) * 86400;
        let ghost posts0 = self.posts@;
        let ghost keep = |p: Post|
            p.is_bookmarked || match p.pub_date {
                Some(d) => d >= now - (days as i64) * 86400,
                None => true,
            };
        let mut kept: Vec<Post> = Vec::new();
        let mut i: usize = 0;
        proof {
            assert(posts0.take(0int).filter(keep) == Seq::<Post>::empty());
        }
        while i < self.posts.len()
            invariant
                i <= posts0.len(),
                posts0 == self.posts@,
                cutoff == now - (days as i64) * 86400,
                kept@ == posts0.take(i as int).filter(
                    |p: Post| p.is_bookmarked || match p.pub_date {
                        Some(d) => d >= now - (days as i64) * 86400,
                        None => true,
                    },
                ),
            decreases posts0.len() - i,
        {
            let p = &self.posts[i];
            let keep_it = p.is_bookmarked || match p.pub_date {
                Some(d) => d >= cutoff,
                None => true,
            };
            if keep_it {
                kept.push(self.posts[i].duplicate());
            }
            proof {
                broadcast use Seq::lemma_filter_push;

                assert(posts0.take(i + 1).drop_last() == posts0.take(i as int));
                assert(posts0.take(i + 1) == posts0.take(i as int).push(posts0[i as int]));
            }
            i += 1;
        }
        let removed = self.posts.len() - kept.len();
        self.posts = kept;
        proof {
            broadcast use Seq::lemma_filter_contains_rev;
            broadcast use Seq::lemma_filter_len;

            assert(posts0.take(posts0.len() as int) == posts0);
            let posts1 = self.posts@;
            crate::order::lemma_filter_keeps_distinct(posts0, keep, |p: Post| p.id);
            crate::order::lemma_filter_keeps_distinct(posts0, keep, |p: Post| p.url@);
            assert forall|t: int|
                0 <= t < posts1.len() implies has_feed(
                self.feeds@,
                (#[trigger] posts1[t]).feed_id,
            ) && 1 <= posts1[t].id < self.next_post_id by {
                assert(posts1[t] == posts0.filter(keep)[t]);
                assert(posts0.filter(keep).contains(posts0.filter(keep)[t]));
                assert(posts0.contains(posts1[t]));
                let u = choose|u: int| 0 <= u < posts0.len() && posts0[u] == posts1[t];
            }
        }
        removed
    }

    /// Replace one post's body text; an unknown identity is a silent no-op.
    pub fn update_post_content(&mut self, pid: i64, content: String) -> (r: bool)
        requires
            old(self).wf(),
        ensures
            final(self).wf(),
            final(self).spec_next_post_id() == old(self).spec_next_post_id(),
            final(self).spec_next_feed_id() == old(self).spec_next_feed_id(),
            final(self).spec_feeds() == old(self).spec_feeds(),
            final(self).spec_explicit_categories() == old(self).spec_explicit_categories(),
            r == has_post(old(self).spec_posts(), pid),
            final(self).spec_posts().len() == old(self).spec_posts().len(),
            forall|t: int|
                0 <= t < old(self).spec_posts().len() ==> {
                    let p0 = #[trigger] old(self).spec_posts()[t];
                    let p1 = final(self).spec_posts()[t];
                    p1 == (Post {
                        content: if p0.id == pid {
                            Some(content)
                        } else {
                            p0.content
                        },
                        ..p0
                    })
                },
    {
        let loc = self.locate_post(pid);
        match loc {
            None => {
                proof {
                    assert forall|t: int|
                        0 <= t < self.posts@.len() implies (#[trigger] self.posts@[t]).id
                        != pid by {}
                }
                false
            },
            Some(i) => {
                let p = self.posts[i].duplicate();
                let q = Post { content: Some(content), ..p };
                self.posts.set(i, q);
                proof {
                    let posts0 = old(self).posts@;
                    assert forall|t: int|
                        0 <= t < posts0.len() implies t != i as int ==> (
                        #[trigger] posts0[t]).id != pid by {}
                }
                true
            },
        }
    }

    /// Per-category post totals, over the categories that feeds carry,
    /// sorted ascending by name.
    pub fn get_category_stats(&self) -> (r: Vec<(String, usize)>)
        requires
            self.wf(),
        ensures
            ({
                let cats = crate::order::sort_names(
                    dedup_names(
                        Seq::<String>::empty(),
                        self.spec_feeds().map_values(|f: Feed| f.category),
                    ),
                );
                r@.len() == cats.len() && forall|t: int|
                    0 <= t < cats.len() ==> (#[trigger] r@[t]).0 == cats[t] && r@[t].1
                        == self.spec_posts().filter(
                        in_cat_pred(self.spec_feeds(), cats[t]@),
                    ).len()
            }),
    {
        let mut names: Vec<String> = Vec::new();
        let mut i: usize = 0;
        proof {
            let extras = self.feeds@.map_values(|f: Feed| f.category);
            assert(extras.take(0int) =~= Seq::<String>::empty());
            assert(dedup_names(Seq::<String>::empty(), extras.take(0int))
                == Seq::<String>::empty());
            assert(names@ == Seq::<String>::empty());
        }
        while i < self.feeds.len()
            invariant
                self.wf(),
                i <= self.feeds@.len(),
                names@ == dedup_names(
                    Seq::<String>::empty(),
                    self.feeds@.map_values(|f: Feed| f.category).take(i as int),
                ),
            decreases self.feeds@.len() - i,
        {
            let present = crate::model::contains_name(&names, &self.feeds[i].category);
            let ghost prev = names@;
            if !present {
                names.push(self.feeds[i].category.clone());
            }
            proof {
                let extras = self.feeds@.map_values(|f: Feed| f.category);
                let e = extras.take(i + 1);
                assert(e.len() == i + 1);
                assert(e.drop_last() =~= extras.take(i as int));
                assert(e.last() == extras[i as int]);
                assert(extras[i as int] == self.feeds@[i as int].category);
            }
            i += 1;
        }
        proof {
            let extras = self.feeds@.map_values(|f: Feed| f.category);
            assert(extras.take(extras.len() as int) =~= extras);
            lemma_dedup_names_props(Seq::<String>::empty(), extras);
        }
        let names = crate::order::sort_names_exec(names);
        let ghost cats = crate::order::sort_names(
            dedup_names(Seq::<String>::empty(), self.feeds@.map_values(|f: Feed| f.category)),
        );
        let mut r: Vec<(String, usize)> = Vec::new();
        let mut j: usize = 0;
        while j < names.len()
            invariant
                self.wf(),
                j <= names@.len(),
                names@ == cats,
                r@.len() == j,
                forall|t: int|
                    0 <= t < j ==> (#[trigger] r@[t]).0 == cats[t] && r@[t].1
                        == self.spec_posts().filter(
                        in_cat_pred(self.spec_feeds(), cats[t]@),
                    ).len(),
            decreases names@.len() - j,
        {
            let count = self.count_posts_in_category(&names[j]);
            r.push((names[j].clone(), count));
            j += 1;
        }
        r
    }
}

/// Law: ingest keyed by canonical URL is idempotent. Re-inserting a post
/// whose URL is already claimed leaves the table exactly as it was, and a
/// URL that was absent before one insert is claimed by exactly one stored
/// post afterwards.
pub proof fn lemma_ingest_idempotent(posts: Seq<Post>, p: Post, q: Post)
    requires
        q.url@ == p.url@,
    ensures
        insert_post_spec(insert_post_spec(posts, p), q) == insert_post_spec(posts, p),
        url_count(posts, p.url@) == 0 ==> url_count(insert_post_spec(posts, p), p.url@) == 1,
{
    broadcast use Seq::lemma_filter_contains;
    broadcast use Seq::lemma_filter_len_push;

    let once = insert_post_spec(posts, p);
    if url_present(posts, p.url@) {
        assert(once == posts);
        assert(url_present(once, q.url@));
    } else {
        assert(once == posts.push(p));
        assert(once[once.len() - 1].url@ == q.url@);
        assert(url_present(once, q.url@));
    }
    if url_count(posts, p.url@) == 0 {
        let upred = |x: Post| x.url@ == p.url@;
        if url_present(posts, p.url@) {
            let w = choose|w: int|
                0 <= w < posts.len() && (#[trigger] posts[w]).url@ == p.url@;
            assert(upred(posts[w]));
            assert(posts.filter(upred).contains(posts[w]));
            assert(posts.filter(upred).len() > 0);
            assert(false);
        }
        assert(once == posts.push(p));
        assert(posts.push(p).filter(upred).len() == posts.filter(upred).len() + 1);
    }
}


/// A post's owning feed determines at most one category: membership in two
/// category names forces the names to coincide.
pub proof fn lemma_one_category(feeds: Seq<Feed>, p: Post, c1: Seq<char>, c2: Seq<char>)
    requires
        feed_ids_distinct(feeds),
        post_in_cat(feeds, p, c1),
        post_in_cat(feeds, p, c2),
    ensures
        c1 == c2,
{
    let i1 = choose|i: int|
        0 <= i < feeds.len() && (#[trigger] feeds[i]).id == p.feed_id && feeds[i].category@
            == c1;
    let i2 = choose|i: int|
        0 <= i < feeds.len() && (#[trigger] feeds[i]).id == p.feed_id && feeds[i].category@
            == c2;
    if i1 != i2 {
        assert(false);
    }
}

/// `slice` is, as a multiset, a newest-first prefix — capped at `k` — of
/// the unread posts of the category named `c`: the posts a fair digest
/// lets that category contribute.
pub open spec fn is_newest_unread_slice(
    feeds: Seq<Feed>,
    posts: Seq<Post>,
    c: Seq<char>,
    k: int,
    slice: Seq<Post>,
) -> bool {
    exists|full: Seq<Post>|
        #[trigger] full.to_multiset() == posts.filter(
            unread_in_cat_pred(feeds, c),
        ).to_multiset() && crate::model::sorted_newest_first(full) && slice.to_multiset()
            == full.take(capped(full.len() as int, k)).to_multiset()
}

/// `r` is the fair fresh digest of `posts` over the category list `cats`:
/// ordered newest-first, it holds, for every listed category, exactly its
/// newest unread posts up to the per-category bound `k` — so no category
/// crowds out another — and nothing else.
pub open spec fn is_fair_digest(
    feeds: Seq<Feed>,
    posts: Seq<Post>,
    cats: Seq<String>,
    k: int,
    r: Seq<Post>,
) -> bool {
    &&& crate::model::sorted_newest_first(r)
    &&& forall|t: int|
        0 <= t < cats.len() ==> r.filter(in_cat_pred(feeds, (#[trigger] cats[t])@)).len()
            == capped(posts.filter(unread_in_cat_pred(feeds, cats[t]@)).len() as int, k)
    &&& forall|t: int|
        0 <= t < cats.len() ==> is_newest_unread_slice(
            feeds,
            posts,
            (#[trigger] cats[t])@,
            k,
            r.filter(in_cat_pred(feeds, cats[t]@)),
        )
    &&& forall|j: int|
        0 <= j < r.len() ==> !(#[trigger] r[j]).is_read && posts.contains(r[j]) && (exists|
            t: int,
        |
            0 <= t < cats.len() && post_in_cat(feeds, r[j], (#[trigger] cats[t])@))
}

impl Store {
    /// Materialize the fair fresh digest: for every known category,
    /// independently take up to `per_category_limit` of its newest unread
    /// posts, then merge everything newest-first. The merged length may
    /// exceed the per-category bound; no overall cap is applied.
    pub fn get_fresh_feed(&self, per_category_limit: usize) -> (r: Vec<Post>)
        requires
            self.wf(),
        ensures
            is_fair_digest(
                self.spec_feeds(),
                self.spec_posts(),
                self.spec_categories(),
                per_category_limit as int,
                r@,
            ),
    {
        let cats = self.list_categories();
        let mut all: Vec<Post> = Vec::new();
        let mut ci: usize = 0;
        while ci < cats.len()
            invariant
                self.wf(),
                cats@ == self.spec_categories(),
                names_distinct(cats@),
                ci <= cats@.len(),
                forall|t: int|
                    0 <= t < ci ==> all@.filter(
                        in_cat_pred(self.spec_feeds(), (#[trigger] cats@[t])@),
                    ).len() == capped(
                        self.spec_posts().filter(
                            unread_in_cat_pred(self.spec_feeds(), cats@[t]@),
                        ).len() as int,
                        per_category_limit as int,
                    ),
                forall|t: int|
                    0 <= t < ci ==> is_newest_unread_slice(
                        self.spec_feeds(),
                        self.spec_posts(),
                        (#[trigger] cats@[t])@,
                        per_category_limit as int,
                        all@.filter(in_cat_pred(self.spec_feeds(), cats@[t]@)),
                    ),
                forall|t: int|
                    ci <= t < cats@.len() ==> all@.filter(
                        in_cat_pred(self.spec_feeds(), (#[trigger] cats@[t])@),
                    ).len() == 0,
                forall|j: int|
                    0 <= j < all@.len() ==> !(#[trigger] all@[j]).is_read
                        && self.spec_posts().contains(all@[j]) && (exists|t: int|
                        0 <= t < ci && post_in_cat(
                            self.spec_feeds(),
                            all@[j],
                            (#[trigger] cats@[t])@,
                        )),
            decreases cats@.len() - ci,
        {
            let ghost feeds = self.spec_feeds();
            let ghost c = cats@[ci as int]@;
            let picked = self.collect_category_posts(&cats[ci], true);
            let mut seg = rank_and_cap(
                picked,
                per_category_limit,
                Ghost(self.spec_posts()),
                Ghost(unread_in_cat_pred(self.spec_feeds(), c)),
            );
            let ghost all0 = all@;
            let ghost segv = seg@;
            all.append(&mut seg);
            proof {
                broadcast use Seq::filter_distributes_over_add;
                broadcast use vstd::seq_lib::group_to_multiset_ensures;

                assert(all@ == all0 + segv);
                assert forall|j: int| 0 <= j < segv.len() implies in_cat_pred(feeds, c)(
                    #[trigger] segv[j],
                ) && !segv[j].is_read && self.spec_posts().contains(segv[j]) by {
                    assert(unread_in_cat_pred(feeds, c)(segv[j]));
                }
                crate::order::lemma_filter_all(segv, in_cat_pred(feeds, c));
                assert forall|t: int|
                    0 <= t < cats@.len() && t != ci as int implies segv.filter(
                    in_cat_pred(feeds, (#[trigger] cats@[t])@),
                ).len() == 0 by {
                    let pt = in_cat_pred(feeds, cats@[t]@);
                    assert forall|j: int| 0 <= j < segv.len() implies !pt(
                        #[trigger] segv[j],
                    ) by {
                        if pt(segv[j]) {
                            assert(post_in_cat(feeds, segv[j], c));
                            lemma_one_category(feeds, segv[j], c, cats@[t]@);
                            assert(cats@[ci as int]@ == cats@[t]@);
                            assert(false);
                        }
                    }
                    assert(segv.all(|x: Post| !pt(x)));
                    segv.lemma_all_neg_filter_empty(pt);
                }
                assert forall|t: int|
                    0 <= t < ci + 1 implies all@.filter(
                    in_cat_pred(self.spec_feeds(), (#[trigger] cats@[t])@),
                ).len() == capped(
                    self.spec_posts().filter(
                        unread_in_cat_pred(self.spec_feeds(), cats@[t]@),
                    ).len() as int,
                    per_category_limit as int,
                ) by {
                    let pt = in_cat_pred(feeds, cats@[t]@);
                    assert(all@.filter(pt) == all0.filter(pt) + segv.filter(pt));
                    if t == ci as int {
                        assert(all0.filter(pt).len() == 0);
                        assert(segv.filter(pt) == segv);
                    } else {
                        assert(segv.filter(pt).len() == 0);
                    }
                }
                assert forall|t: int|
                    0 <= t < ci + 1 implies is_newest_unread_slice(
                    self.spec_feeds(),
                    self.spec_posts(),
                    (#[trigger] cats@[t])@,
                    per_category_limit as int,
                    all@.filter(in_cat_pred(self.spec_feeds(), cats@[t]@)),
                ) by {
                    let pt = in_cat_pred(feeds, cats@[t]@);
                    assert(all@.filter(pt) == all0.filter(pt) + segv.filter(pt));
                    if t == ci as int {
                        assert(all0.filter(pt).len() == 0);
                        assert(all0.filter(pt) =~= Seq::<Post>::empty());
                        assert(segv.filter(pt) == segv);
                        assert(all@.filter(pt) =~= segv);
                        let sel = self.spec_posts().filter(unread_in_cat_pred(feeds, c));
                        let full_w = choose|full: Seq<Post>|
                            #[trigger] full.to_multiset() == sel.to_multiset()
                                && crate::model::sorted_newest_first(full) && segv
                                == full.take(segv.len() as int);
                        assert(full_w.to_multiset().len() == full_w.len());
                        assert(sel.to_multiset().len() == sel.len());
                        assert(full_w.len() == sel.len());
                        assert(segv.len() == capped(full_w.len() as int, per_category_limit as int));
                        assert(all@.filter(pt).to_multiset() == full_w.take(
                            capped(full_w.len() as int, per_category_limit as int),
                        ).to_multiset());
                        assert(is_newest_unread_slice(
                            feeds,
                            self.spec_posts(),
                            cats@[t]@,
                            per_category_limit as int,
                            all@.filter(pt),
                        ));
                    } else {
                        assert(segv.filter(pt).len() == 0);
                        assert(segv.filter(pt) =~= Seq::<Post>::empty());
                        assert(all@.filter(pt) =~= all0.filter(pt));
                        assert(all@.filter(pt) == all0.filter(pt));
                        assert(is_newest_unread_slice(
                            feeds,
                            self.spec_posts(),
                            cats@[t]@,
                            per_category_limit as int,
                            all0.filter(pt),
                        ));
                    }
                }
                assert forall|t: int|
                    ci + 1 <= t < cats@.len() implies all@.filter(
                    in_cat_pred(self.spec_feeds(), (#[trigger] cats@[t])@),
                ).len() == 0 by {
                    let pt = in_cat_pred(feeds, cats@[t]@);
                    assert(all@.filter(pt) == all0.filter(pt) + segv.filter(pt));
                    assert(all0.filter(pt).len() == 0);
                    assert(segv.filter(pt).len() == 0);
                }
                assert forall|j: int|
                    0 <= j < all@.len() implies !(#[trigger] all@[j]).is_read
                    && self.spec_posts().contains(all@[j]) && (exists|t: int|
                    0 <= t < ci + 1 && post_in_cat(
                        self.spec_feeds(),
                        all@[j],
                        (#[trigger] cats@[t])@,
                    )) by {
                    if j < all0.len() {
                        assert(all@[j] == all0[j]);
                        let t0 = choose|t: int|
                            0 <= t < ci && post_in_cat(feeds, all0[j], (#[trigger] cats@[t])@);
                        assert(post_in_cat(feeds, all@[j], cats@[t0]@));
                    } else {
                        assert(all@[j] == segv[j - all0.len()]);
                        assert(post_in_cat(feeds, all@[j], cats@[ci as int]@));
                    }
                }
            }
            ci += 1;
        }
        let ghost allv = all@;
        let r = crate::order::sort_posts_newest_first(all);
        proof {
            broadcast use vstd::seq_lib::group_to_multiset_ensures;

            let feeds = self.spec_feeds();
            assert forall|t: int|
                0 <= t < cats@.len() implies r@.filter(
                in_cat_pred(feeds, (#[trigger] cats@[t])@),
            ).len() == capped(
                self.spec_posts().filter(unread_in_cat_pred(feeds, cats@[t]@)).len() as int,
                per_category_limit as int,
            ) && is_newest_unread_slice(
                feeds,
                self.spec_posts(),
                cats@[t]@,
                per_category_limit as int,
                r@.filter(in_cat_pred(feeds, cats@[t]@)),
            ) by {
                let pt = in_cat_pred(feeds, cats@[t]@);
                crate::order::lemma_filter_len_multiset(r@, allv, pt);
                crate::order::lemma_filter_to_multiset(r@, pt);
                crate::order::lemma_filter_to_multiset(allv, pt);
                assert(r@.filter(pt).to_multiset() == allv.filter(pt).to_multiset());
                assert(is_newest_unread_slice(
                    feeds,
                    self.spec_posts(),
                    cats@[t]@,
                    per_category_limit as int,
                    allv.filter(pt),
                ));
                let sel = self.spec_posts().filter(unread_in_cat_pred(feeds, cats@[t]@));
                let full_w = choose|full: Seq<Post>|
                    #[trigger] full.to_multiset() == sel.to_multiset()
                        && crate::model::sorted_newest_first(full) && allv.filter(
                        pt,
                    ).to_multiset() == full.take(
                        capped(full.len() as int, per_category_limit as int),
                    ).to_multiset();
                assert(r@.filter(pt).to_multiset() == full_w.take(
                    capped(full_w.len() as int, per_category_limit as int),
                ).to_multiset());
            }
            assert forall|j: int|
                0 <= j < r@.len() implies !(#[trigger] r@[j]).is_read
                && self.spec_posts().contains(r@[j]) && (exists|t: int|
                0 <= t < cats@.len() && post_in_cat(feeds, r@[j], (#[trigger] cats@[t])@)) by {
                assert(r@.contains(r@[j]));
                assert(r@.to_multiset().count(r@[j]) > 0);
                assert(allv.to_multiset().count(r@[j]) > 0);
                assert(allv.contains(r@[j]));
                let u = choose|u: int| 0 <= u < allv.len() && allv[u] == r@[j];
                let t0 = choose|t: int|
                    0 <= t < cats@.len() && post_in_cat(feeds, allv[u], (#[trigger] cats@[t])@);
                assert(post_in_cat(feeds, r@[j], cats@[t0]@));
            }
        }
        r
    }
}

} // verus!
