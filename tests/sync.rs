use seymour::codec::{Header, Page, Status};
use seymour::feed::Feed;
use seymour::sync::{entry_rows, feed_of_page, orphan_feeds, FeedFailure};
use seymour::feed::TryFromPageError;

#[test]
fn feeds_without_subscriptions_are_pruned() {
    assert_eq!(orphan_feeds(&vec![1, 2, 3, 4], &vec![2, 2, 4]), vec![1, 3]);
    assert_eq!(orphan_feeds(&vec![5], &vec![]), vec![5]);
    assert_eq!(orphan_feeds(&vec![], &vec![1]), Vec::<i64>::new());
    assert_eq!(orphan_feeds(&vec![7, 8], &vec![8, 7]), Vec::<i64>::new());
}

fn feed(body: &str) -> Feed {
    let page = Page {
        url: "gemini://x/".to_string(),
        header: Header { status: Status::Success, meta: "text/gemini".to_string() },
        body: Some(body.to_string()),
    };
    match Feed::try_from(page) {
        Ok(f) => f,
        Err(_) => panic!("expected a feed"),
    }
}

#[test]
fn rows_follow_the_entries() {
    let f = feed("# T\n=> gemini://x/1 2020-01-02 One\n=> gemini://x/2 2021-11-30 - Two");
    let rows = entry_rows(5, &f);
    assert_eq!(rows.len(), 2);
    assert_eq!(rows[0].feed_id, 5);
    assert_eq!(rows[0].title, "One");
    assert_eq!(rows[0].published_at, "2020-01-02");
    assert_eq!(rows[0].url, "gemini://x/1");
    assert_eq!(rows[1].published_at, "2021-11-30");
    assert_eq!(rows[1].title, "Two");
}

#[test]
fn a_feed_without_entries_writes_nothing() {
    assert!(entry_rows(1, &feed("# Only a title")).is_empty());
}

#[test]
fn repeated_entries_give_equal_rows() {
    let f = feed("# T\n=> gemini://x/a 2020-01-01 Same\n=> gemini://x/a 2020-01-01 Same");
    let rows = entry_rows(1, &f);
    assert_eq!(rows.len(), 2);
    assert_eq!((rows[0].feed_id, &rows[0].url), (rows[1].feed_id, &rows[1].url));
}

fn page_with(status: Status, body: Option<&str>) -> Page {
    Page {
        url: "gemini://x/".to_string(),
        header: Header { status, meta: "m".to_string() },
        body: body.map(|b| b.to_string()),
    }
}

#[test]
fn only_success_pages_become_feeds() {
    let f = feed_of_page(page_with(Status::Success, Some("# T\n=> gemini://x/1 2020-01-02 One")));
    match f {
        Ok(f) => {
            assert_eq!(f.title, "T");
            assert_eq!(f.entries.len(), 1);
        }
        Err(_) => panic!("expected a feed"),
    }
    match feed_of_page(page_with(Status::NotFound, Some("# Not found"))) {
        Err(FeedFailure::NotSuccess(s)) => assert_eq!(s, Status::NotFound),
        _ => panic!("expected a failed status"),
    }
    assert!(matches!(
        feed_of_page(page_with(Status::TemporaryRedirect, None)),
        Err(FeedFailure::NotSuccess(Status::TemporaryRedirect))
    ));
    assert!(matches!(
        feed_of_page(page_with(Status::Success, None)),
        Err(FeedFailure::Parse(TryFromPageError::EmptyPage))
    ));
}
