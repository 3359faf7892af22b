//! Ingestion of fetched feed entries: choosing each entry's stored fields
//! (body falling back to the summary, published instant preferred over
//! updated) and the insert-if-absent writes into the store.
//!
//! The shell parses the wire bytes — the parser can panic on crafted
//! documents, so that call stays outside the library — and hands in plain
//! [`EntryData`] values; everything from there on is verified.

use vstd::prelude::*;
use vstd::string::StrSliceExecFns;
use crate::model::{Feed, Post};
use crate::store::{feed_title_of, has_feed, url_present, Store};

verus! {

/// One parsed feed entry, reduced to plain values: the display title, the
/// first link, the body and summary texts, and the two candidate publish
/// instants (seconds since the Unix epoch).
#[derive(Debug, Clone, PartialEq)]
pub struct EntryData {
    pub title: Option<String>,
    pub link: Option<String>,
    pub content_body: Option<String>,
    pub summary: Option<String>,
    pub published: Option<i64>,
    pub updated: Option<i64>,
}

/// An ASCII whitespace character.
pub open spec fn is_space_char(c: char) -> bool {
    c == ' ' || c == '\t' || c == '\n' || c == '\r'
}

/// Nothing but whitespace.
pub open spec fn blank(s: Seq<char>) -> bool {
    forall|i: int| 0 <= i < s.len() ==> is_space_char(#[trigger] s[i])
}

/// Whether `s` holds nothing but whitespace, decided executably.
pub fn is_blank(s: &str) -> (r: bool)
    ensures
        r == blank(s@),
{
    let n = s.unicode_len();
    let mut i: usize = 0;
    while i < n
        invariant
            n == s@.len(),
            i <= n,
            forall|j: int| 0 <= j < i ==> is_space_char(#[trigger] s@[j]),
        decreases n - i,
    {
        let c = s.get_char(i);
        if !(c == ' ' || c == '\t' || c == '\n' || c == '\r') {
            return false;
        }
        i += 1;
    }
    true
}

/// The stored title of an entry: its title text, or empty.
pub open spec fn entry_title(e: EntryData) -> Seq<char> {
    match e.title {
        Some(t) => t@,
        None => Seq::<char>::empty(),
    }
}

/// The canonical URL of an entry: its first link, or empty.
pub open spec fn entry_url(e: EntryData) -> Seq<char> {
    match e.link {
        Some(l) => l@,
        None => Seq::<char>::empty(),
    }
}

/// The stored body of an entry: the content body, falling back to the
/// summary (or empty) when the body is missing or nothing but whitespace.
pub open spec fn entry_body(e: EntryData) -> Seq<char> {
    let fallback = match e.summary {
        Some(t) => t@,
        None => Seq::<char>::empty(),
    };
    match e.content_body {
        Some(b) => if !blank(b@) {
            b@
        } else {
            fallback
        },
        None => fallback,
    }
}

/// The stored publish instant of an entry: the explicit published
/// timestamp, preferred over the updated timestamp.
pub open spec fn entry_date(e: EntryData) -> Option<i64> {
    match e.published {
        Some(d) => Some(d),
        None => e.updated,
    }
}

/// `p` is exactly the post the entry rules store for `e`: identity `id`,
/// owned by `feed_id`, the entry's chosen title, URL, body and publish
/// instant, all flags clear, and the owning feed's title denormalized in.
pub open spec fn is_ingested_post(
    feeds: Seq<Feed>,
    id: i64,
    feed_id: i64,
    e: EntryData,
    p: Post,
) -> bool {
    &&& p.id == id
    &&& p.feed_id == feed_id
    &&& p.title@ == entry_title(e)
    &&& p.url@ == entry_url(e)
    &&& p.content matches Some(c) && c@ == entry_body(e)
    &&& p.pub_date == entry_date(e)
    &&& !p.is_read
    &&& !p.is_bookmarked
    &&& !p.is_archived
    &&& !p.is_read_later
    &&& p.feed_title == feed_title_of(feeds, feed_id)
}

/// One ingest step on the post table and its identity counter: a missing
/// owning feed, identity exhaustion, or a URL already present leave both
/// untouched; otherwise exactly the entry's post is appended and the
/// counter moves on.
pub open spec fn ingest_step(
    feeds: Seq<Feed>,
    feed_id: i64,
    posts0: Seq<Post>,
    next0: i64,
    e: EntryData,
    posts1: Seq<Post>,
    next1: i64,
) -> bool {
    if !has_feed(feeds, feed_id) || next0 == i64::MAX || url_present(posts0, entry_url(e)) {
        posts1 == posts0 && next1 == next0
    } else {
        &&& next1 == next0 + 1
        &&& posts1.len() == posts0.len() + 1
        &&& posts1.take(posts0.len() as int) == posts0
        &&& is_ingested_post(feeds, next0, feed_id, e, posts1.last())
    }
}

/// The post table and counter after ingesting every entry in order: the
/// fold of [`ingest_step`] over `entries`.
pub open spec fn ingests_all(
    feeds: Seq<Feed>,
    feed_id: i64,
    posts0: Seq<Post>,
    next0: i64,
    entries: Seq<EntryData>,
    posts1: Seq<Post>,
    next1: i64,
) -> bool
    decreases entries.len(),
{
    if entries.len() == 0 {
        posts1 == posts0 && next1 == next0
    } else {
        exists|pm: Seq<Post>, nm: i64|
            ingests_all(feeds, feed_id, posts0, next0, entries.drop_last(), pm, nm)
                && #[trigger] ingest_step(
                feeds,
                feed_id,
                pm,
                nm,
                entries.last(),
                posts1,
                next1,
            )
    }
}

/// Ingest one entry for the feed `feed_id`: insert-if-absent on the
/// entry's URL, with the stored fields chosen by the entry rules and all
/// flags clear. Returns whether a post was inserted.
pub fn ingest_entry(store: &mut Store, feed_id: i64, e: EntryData) -> (r: bool)
    requires
        old(store).wf(),
    ensures
        final(store).wf(),
        final(store).spec_feeds() == old(store).spec_feeds(),
        final(store).spec_explicit_categories() == old(store).spec_explicit_categories(),
        ingest_step(
            old(store).spec_feeds(),
            feed_id,
            old(store).spec_posts(),
            old(store).spec_next_post_id(),
            e,
            final(store).spec_posts(),
            final(store).spec_next_post_id(),
        ),
        r == (has_feed(old(store).spec_feeds(), feed_id) && old(store).spec_next_post_id()
            != i64::MAX && !url_present(old(store).spec_posts(), entry_url(e))),
{
    let title: String = match e.title {
        Some(t) => t,
        None => String::new(),
    };
    let url: String = match e.link {
        Some(l) => l,
        None => String::new(),
    };
    let body: String = match e.content_body {
        Some(b) => {
            if !is_blank(b.as_str()) {
                b
            } else {
                match e.summary {
                    Some(t) => t,
                    None => String::new(),
                }
            }
        },
        None => match e.summary {
            Some(t) => t,
            None => String::new(),
        },
    };
    let pub_date: Option<i64> = match e.published {
        Some(d) => Some(d),
        None => e.updated,
    };
    let r = store.insert_post_if_absent(feed_id, title, url, Some(body), pub_date);
    proof {
        let posts0 = old(store).spec_posts();
        let posts1 = store.spec_posts();
        if posts1.len() == posts0.len() + 1 {
            assert(posts1.take(posts0.len() as int) =~= posts0);
        }
    }
    r
}

/// Ingest every entry of one fetched feed, in order: the store's post
/// table and identity counter land exactly where the [`ingest_step`] fold
/// of the entries puts them. The store only grows: what was there stays
/// untouched, and every appended post starts with all flags clear.
pub fn apply_entries(store: &mut Store, feed_id: i64, entries: Vec<EntryData>)
    requires
        old(store).wf(),
    ensures
        final(store).wf(),
        final(store).spec_feeds() == old(store).spec_feeds(),
        final(store).spec_explicit_categories() == old(store).spec_explicit_categories(),
        ingests_all(
            old(store).spec_feeds(),
            feed_id,
            old(store).spec_posts(),
            old(store).spec_next_post_id(),
            entries@,
            final(store).spec_posts(),
            final(store).spec_next_post_id(),
        ),
        old(store).spec_posts().len() <= final(store).spec_posts().len(),
        final(store).spec_posts().take(old(store).spec_posts().len() as int) == old(
            store,
        ).spec_posts(),
        forall|j: int|
            old(store).spec_posts().len() <= j < final(store).spec_posts().len() ==> {
                let p = #[trigger] final(store).spec_posts()[j];
                !p.is_read && !p.is_bookmarked && !p.is_archived && !p.is_read_later
                    && p.feed_id == feed_id
            },
{
    let mut entries = entries;
    let ghost entries0 = entries@;
    let ghost posts0 = old(store).spec_posts();
    let ghost next0 = old(store).spec_next_post_id();
    let ghost mut k: int = 0;
    proof {
        assert(entries0.take(0int) =~= Seq::<EntryData>::empty());
        assert(entries0.skip(0int) =~= entries0);
    }
    while entries.len() > 0
        invariant
            store.wf(),
            store.spec_feeds() == old(store).spec_feeds(),
            store.spec_explicit_categories() == old(store).spec_explicit_categories(),
            posts0 == old(store).spec_posts(),
            next0 == old(store).spec_next_post_id(),
            0 <= k <= entries0.len(),
            entries@ == entries0.skip(k),
            ingests_all(
                old(store).spec_feeds(),
                feed_id,
                posts0,
                next0,
                entries0.take(k),
                store.spec_posts(),
                store.spec_next_post_id(),
            ),
            posts0.len() <= store.spec_posts().len(),
            store.spec_posts().take(posts0.len() as int) == posts0,
            forall|j: int|
                posts0.len() <= j < store.spec_posts().len() ==> {
                    let p = #[trigger] store.spec_posts()[j];
                    !p.is_read && !p.is_bookmarked && !p.is_archived && !p.is_read_later
                        && p.feed_id == feed_id
                },
        decreases entries@.len(),
    {
        let ghost pre_posts = store.spec_posts();
        let ghost pre_next = store.spec_next_post_id();
        let e = entries.remove(0);
        proof {
            assert(e == entries0[k]);
            assert(entries@ =~= entries0.skip(k + 1));
        }
        ingest_entry(store, feed_id, e);
        proof {
            let feeds = old(store).spec_feeds();
            let after = store.spec_posts();
            let next_after = store.spec_next_post_id();
            assert(entries0.take(k + 1).drop_last() =~= entries0.take(k));
            assert(entries0.take(k + 1).last() == entries0[k]);
            assert(ingest_step(
                feeds,
                feed_id,
                pre_posts,
                pre_next,
                entries0.take(k + 1).last(),
                after,
                next_after,
            ));
            assert(ingests_all(
                feeds,
                feed_id,
                posts0,
                next0,
                entries0.take(k + 1),
                after,
                next_after,
            ));
            if after.len() == pre_posts.len() + 1 {
                assert(after.take(pre_posts.len() as int) == pre_posts);
                assert(pre_posts.take(posts0.len() as int) == posts0);
                assert(after.take(posts0.len() as int) =~= posts0);
                assert forall|j: int|
                    posts0.len() <= j < after.len() implies {
                    let p = #[trigger] after[j];
                    !p.is_read && !p.is_bookmarked && !p.is_archived && !p.is_read_later
                        && p.feed_id == feed_id
                } by {
                    if j < pre_posts.len() {
                        assert(after.take(pre_posts.len() as int)[j] == after[j]);
                        assert(pre_posts[j] == after[j]);
                    } else {
                        assert(after[j] == after.last());
                    }
                }
            }
            k = k + 1;
        }
    }
    proof {
        assert(entries0.skip(k).len() == 0);
        assert(k == entries0.len());
        assert(entries0.take(k) =~= entries0);
    }
}

} // verus!
