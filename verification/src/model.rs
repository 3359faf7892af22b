//! Core data model: feeds, posts, and the filters that select posts.
//!
//! Publish instants are plain integers (seconds since the Unix epoch); a
//! missing publish date sorts as the earliest possible instant.

use vstd::prelude::*;
use vstd::string::StrSliceExecFns;
use vstd::string::StringExecFns;

verus! {

/// A subscribed feed source, as snapshotted from the store.
#[derive(Debug, Clone, PartialEq)]
pub struct Feed {
    pub id: i64,
    pub url: String,
    pub title: Option<String>,
    pub category: String,
}

/// A single post, with its four independent user flags.
#[derive(Debug, Clone, PartialEq)]
pub struct Post {
    pub id: i64,
    pub feed_id: i64,
    pub title: String,
    pub url: String,
    pub content: Option<String>,
    pub pub_date: Option<i64>,
    pub is_read: bool,
    pub is_bookmarked: bool,
    pub is_archived: bool,
    pub is_read_later: bool,
    pub feed_title: Option<String>,
}

/// Conjunctive flag filter over posts: every selected condition must hold.
#[derive(Debug, Clone, Copy, PartialEq, Eq, Structural)]
pub struct PostFilter {
    pub only_unread: bool,
    pub only_bookmarked: bool,
    pub only_archived: bool,
    pub only_read_later: bool,
}

/// The key a post sorts by: its publish instant, with absent dates below
/// every present one.
pub open spec fn date_key(p: Post) -> int {
    match p.pub_date {
        Some(d) => d as int,
        None => i64::MIN - 1,
    }
}

/// `a` publishes no later than `b`.
pub open spec fn date_le(a: Post, b: Post) -> bool {
    date_key(a) <= date_key(b)
}

/// Newest first: every earlier element publishes no earlier than each later one.
pub open spec fn sorted_newest_first(s: Seq<Post>) -> bool {
    forall|i: int, j: int|
        0 <= i < j < s.len() ==> date_key(#[trigger] s[j]) <= date_key(#[trigger] s[i])
}

/// Whether `p` passes `f`.
pub open spec fn filter_matches(p: Post, f: PostFilter) -> bool {
    &&& f.only_unread ==> !p.is_read
    &&& f.only_bookmarked ==> p.is_bookmarked
    &&& f.only_archived ==> p.is_archived
    &&& f.only_read_later ==> p.is_read_later
}

impl Post {
    /// Decide `date_le(self, other)` executably.
    pub fn date_le_exec(&self, other: &Post) -> (r: bool)
        ensures
            r == date_le(*self, *other),
    {
        match (self.pub_date, other.pub_date) {
            (None, _) => true,
            (Some(_), None) => false,
            (Some(a), Some(b)) => a <= b,
        }
    }

    /// Decide `filter_matches(self, f)` executably.
    pub fn matches(&self, f: &PostFilter) -> (r: bool)
        ensures
            r == filter_matches(*self, *f),
    {
        (!f.only_unread || !self.is_read) && (!f.only_bookmarked || self.is_bookmarked)
            && (!f.only_archived || self.is_archived) && (!f.only_read_later
            || self.is_read_later)
    }

    /// A field-for-field copy, equal in specifications to what it copies.
    pub fn duplicate(&self) -> (r: Post)
        ensures
            r == *self,
    {
        Post {
            id: self.id,
            feed_id: self.feed_id,
            title: self.title.clone(),
            url: self.url.clone(),
            content: clone_opt_string(&self.content),
            pub_date: self.pub_date,
            is_read: self.is_read,
            is_bookmarked: self.is_bookmarked,
            is_archived: self.is_archived,
            is_read_later: self.is_read_later,
            feed_title: clone_opt_string(&self.feed_title),
        }
    }
}

impl Feed {
    /// A field-for-field copy, equal in specifications to what it copies.
    pub fn duplicate(&self) -> (r: Feed)
        ensures
            r == *self,
    {
        Feed {
            id: self.id,
            url: self.url.clone(),
            title: clone_opt_string(&self.title),
            category: self.category.clone(),
        }
    }
}

/// A copy of an optional string, equal in specifications to what it copies.
pub fn clone_opt_string(s: &Option<String>) -> (r: Option<String>)
    ensures
        r == *s,
{
    match s {
        Some(v) => Some(v.clone()),
        None => None,
    }
}

/// Shorten a string to at most `max_len` characters, marking the cut with
/// a three-dot tail.
pub fn truncate_str(s: &str, max_len: usize) -> (r: String)
    ensures
        s@.len() <= max_len ==> r@ == s@,
        s@.len() > max_len ==> r@ == s@.subrange(
            0,
            if max_len >= 3 {
                max_len - 3
            } else {
                0int
            },
        ) + "..."@,
{
    let n = s.unicode_len();
    if n <= max_len {
        s.to_owned()
    } else {
        let cut: usize = if max_len >= 3 {
            max_len - 3
        } else {
            0
        };
        let head = s.substring_char(0, cut);
        head.to_owned().concat("...")
    }
}

/// Whether two strings hold the same characters.
pub fn string_eq(a: &String, b: &String) -> (r: bool)
    ensures
        r == (a@ == b@),
{
    a.eq(b)
}

/// The index of the first name in `v` with the characters of `name`.
pub fn find_name(v: &Vec<String>, name: &String) -> (r: Option<usize>)
    ensures
        match r {
            Some(i) => i < v@.len() && v@[i as int]@ == name@ && forall|j: int|
                0 <= j < i ==> v@[j]@ != name@,
            None => forall|j: int| 0 <= j < v@.len() ==> v@[j]@ != name@,
        },
{
    let mut i: usize = 0;
    while i < v.len()
        invariant
            i <= v@.len(),
            forall|j: int| 0 <= j < i ==> v@[j]@ != name@,
        decreases v@.len() - i,
    {
        if string_eq(&v[i], name) {
            return Some(i);
        }
        i += 1;
    }
    None
}

/// Whether some name in `s` has exactly the characters `name`.
pub open spec fn name_in(s: Seq<String>, name: Seq<char>) -> bool {
    exists|i: int| 0 <= i < s.len() && #[trigger] s[i]@ == name
}

/// Whether `name` occurs in `v`, decided executably.
pub fn contains_name(v: &Vec<String>, name: &String) -> (r: bool)
    ensures
        r == name_in(v@, name@),
{
    let r = find_name(v, name);
    match r {
        Some(i) => {
            proof {
                assert(v@[i as int]@ == name@);
            }
            true
        },
        None => false,
    }
}

/// A copy of a string vector, element-for-element equal in specifications.
pub fn clone_names(v: &Vec<String>) -> (r: Vec<String>)
    ensures
        r@ == v@,
{
    let mut r: Vec<String> = Vec::new();
    let mut i: usize = 0;
    while i < v.len()
        invariant
            i <= v@.len(),
            r@ == v@.take(i as int),
        decreases v@.len() - i,
    {
        r.push(v[i].clone());
        proof {
            assert(v@.take(i + 1).drop_last() == v@.take(i as int));
            assert(v@.take(i + 1) == v@.take(i as int).push(v@[i as int]));
        }
        i += 1;
    }
    proof {
        assert(v@.take(v@.len() as int) == v@);
    }
    r
}

} // verus!
