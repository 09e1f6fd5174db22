//! What a synchronization pass decides: the rows that a fetched feed adds to
//! the store, and the feeds that nobody subscribes to any more.

use vstd::prelude::*;

use crate::codec::Page;
use crate::feed::{parsed_as, Entry, Feed, TryFromPageError};

verus! {

/// Why a fetched page gave no feed.
pub enum FeedFailure {
    /// The page's status is not a success; it carries the status.
    NotSuccess(crate::codec::Status),
    /// The page's body is no feed.
    Parse(TryFromPageError),
}

/// The feed of the page that a fetch ended on: a page whose status is not a
/// success is a failure of the fetch; any other is parsed.
pub fn feed_of_page(page: Page) -> (r: Result<Feed, FeedFailure>)
    ensures
        page.header.status.class() != 2 ==> (r matches Err(FeedFailure::NotSuccess(s)) && s
            == page.header.status),
        page.header.status.class() == 2 ==> match r {
            Ok(f) => parsed_as(page, Ok(f)),
            Err(FeedFailure::Parse(e)) => parsed_as(page, Err(e)),
            Err(FeedFailure::NotSuccess(_)) => false,
        },
{
    match page.header.status {
        crate::codec::Status::Success => {},
        st => {
            return Err(FeedFailure::NotSuccess(st));
        },
    }
    match Feed::try_from(page) {
        Ok(f) => Ok(f),
        Err(e) => Err(FeedFailure::Parse(e)),
    }
}

/// A feed entry as the store keeps it; the store holds one row per feed and
/// URL, and ignores a second one.
pub struct EntryRow {
    pub feed_id: i64,
    pub title: String,
    pub published_at: String,
    pub url: String,
}

/// The row for entry `e` of feed `feed_id`.
pub open spec fn row_matches(feed_id: i64, e: Entry, r: EntryRow) -> bool {
    &&& r.feed_id == feed_id
    &&& r.title@ == e.title@
    &&& r.published_at@ == e.published_at.iso()
    &&& r.url@ == e.link@
}

/// The rows to insert for the entries of `feed`, in the order of the feed;
/// a feed without entries gives none, and so writes nothing.
pub fn entry_rows(feed_id: i64, feed: &Feed) -> (r: Vec<EntryRow>)
    ensures
        r@.len() == feed.entries@.len(),
        forall|i: int| 0 <= i < r@.len() ==> row_matches(feed_id, feed.entries@[i], #[trigger] r@[i]),
{
    let mut rows: Vec<EntryRow> = Vec::new();
    let mut i: usize = 0;
    while i < feed.entries.len()
        invariant
            i <= feed.entries@.len(),
            rows@.len() == i,
            forall|k: int| 0 <= k < i ==> row_matches(feed_id, feed.entries@[k], #[trigger] rows@[k]),
        decreases feed.entries.len() - i,
    {
        let e = &feed.entries[i];
        rows.push(
            EntryRow {
                feed_id,
                title: e.title.clone(),
                published_at: e.published_at.to_iso(),
                url: e.link.clone(),
            },
        );
        i += 1;
    }
    rows
}

/// The feeds of `feeds` that no subscription names, in the order given.
pub open spec fn orphans(feeds: Seq<i64>, subscribed: Seq<i64>) -> Seq<i64> {
    feeds.filter(|f: i64| !subscribed.contains(f))
}

fn contains(v: &Vec<i64>, x: i64) -> (r: bool)
    ensures
        r == v@.contains(x),
{
    let mut i: usize = 0;
    while i < v.len()
        invariant
            i <= v@.len(),
            forall|k: int| 0 <= k < i ==> v@[k] != x,
        decreases v.len() - i,
    {
        if v[i] == x {
            return true;
        }
        i += 1;
    }
    false
}

/// The feeds to delete after a pass: those of `feeds` that no subscription
/// row (`subscribed` holds the feed of each) names.
pub fn orphan_feeds(feeds: &Vec<i64>, subscribed: &Vec<i64>) -> (r: Vec<i64>)
    ensures
        r@ == orphans(feeds@, subscribed@),
{
    let mut out: Vec<i64> = Vec::new();
    let mut i: usize = 0;
    proof {
        reveal(Seq::filter);
    }
    while i < feeds.len()
        invariant
            i <= feeds@.len(),
            out@ == orphans(feeds@.take(i as int), subscribed@),
        decreases feeds.len() - i,
    {
        let f = feeds[i];
        assert(feeds@.take(i + 1).drop_last() =~= feeds@.take(i as int));
        proof {
            reveal(Seq::filter);
        }
        if !contains(subscribed, f) {
            out.push(f);
        }
        i += 1;
    }
    assert(feeds@.take(i as int) =~= feeds@);
    out
}

/// After the pruning pass, a feed that no subscription names is among those
/// deleted, and a feed that at least one names is not.
pub proof fn lemma_pruning(feeds: Seq<i64>, subscribed: Seq<i64>, f: i64)
    requires
        feeds.contains(f),
    ensures
        !subscribed.contains(f) ==> orphans(feeds, subscribed).contains(f),
        subscribed.contains(f) ==> !orphans(feeds, subscribed).contains(f),
{
    let keep = |x: i64| !subscribed.contains(x);
    if !subscribed.contains(f) {
        let i = choose|i: int| 0 <= i < feeds.len() && feeds[i] == f;
        feeds.lemma_filter_contains(keep, i);
    } else {
        broadcast use vstd::seq_lib::group_filter_ensures;

        assert(!orphans(feeds, subscribed).contains(f));
    }
}

} // verus!
