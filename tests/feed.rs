use seymour::codec::{Header, Page, Status};
use seymour::feed::{Date, Entry, Feed, ParseEntryError, TryFromPageError};

fn page(body: Option<&str>) -> Page {
    Page {
        url: "gemini://example.org/".to_string(),
        header: Header { status: Status::Success, meta: "text/gemini".to_string() },
        body: body.map(|b| b.to_string()),
    }
}

fn feed(body: &str) -> Feed {
    match Feed::try_from(page(Some(body))) {
        Ok(f) => f,
        Err(_) => panic!("expected a feed"),
    }
}

#[test]
fn title_subtitle_and_entry() {
    let f = feed("# Hello\n## World\n=> gemini://x/ 2020-01-01 Post");
    assert_eq!(f.base_url, "gemini://example.org/");
    assert_eq!(f.title, "Hello");
    assert_eq!(f.subtitle.as_deref(), Some("World"));
    assert_eq!(f.entries.len(), 1);
    let e = &f.entries[0];
    assert_eq!((e.published_at.year, e.published_at.month, e.published_at.day), (2020, 1, 1));
    assert_eq!(e.link, "gemini://x/");
    assert_eq!(e.title, "Post");
}

#[test]
fn subtitle_must_follow_the_title() {
    let f = feed("# Hello\n\n## World");
    assert_eq!(f.title, "Hello");
    assert!(f.subtitle.is_none());
}

#[test]
fn only_the_first_title_and_subtitle_count() {
    let f = feed("intro\n# One\n## Sub\n## Other\n# Two\n## Late");
    assert_eq!(f.title, "One");
    assert_eq!(f.subtitle.as_deref(), Some("Sub"));
}

#[test]
fn crlf_lines_and_undated_links() {
    let f = feed("# T\r\n=> gemini://a/ About\r\n=> gemini://b/ 2021-12-31 - Year end\r\n");
    assert_eq!(f.title, "T");
    assert_eq!(f.entries.len(), 1);
    assert_eq!(f.entries[0].link, "gemini://b/");
    assert_eq!(f.entries[0].title, "Year end");
}

#[test]
fn empty_page_and_missing_title() {
    assert!(matches!(Feed::try_from(page(None)), Err(TryFromPageError::EmptyPage)));
    assert!(matches!(
        Feed::try_from(page(Some("## Sub\n=> gemini://x/ 2020-01-01 Post"))),
        Err(TryFromPageError::MissingTitle)
    ));
}

#[test]
fn entry_with_dash_and_runs_of_spaces() {
    let e = Entry::from_str("=>  gemini://a/b   2021-03-04 -  Title here").ok().expect("entry");
    assert_eq!(e.link, "gemini://a/b");
    assert_eq!(e.title, "Title here");
    assert_eq!(e.published_at.to_iso(), "2021-03-04");
}

#[test]
fn entry_title_may_be_a_lone_dash() {
    let e = Entry::from_str("=> l 2020-01-01 - ").ok().expect("entry");
    assert_eq!(e.title, "- ");
    let e = Entry::from_str("=> l 2020-01-01 -").ok().expect("entry");
    assert_eq!(e.title, "-");
}

#[test]
fn entry_title_from_trailing_space() {
    let e = Entry::from_str("=> l 2020-01-01  ").ok().expect("entry");
    assert_eq!(e.title, " ");
    assert!(matches!(Entry::from_str("=> l 2020-01-01 "), Err(ParseEntryError::MalformedEntry)));
}

#[test]
fn malformed_entries() {
    assert!(matches!(Entry::from_str("=> gemini://a/ About"), Err(ParseEntryError::MalformedEntry)));
    assert!(matches!(Entry::from_str("=> gemini://a/ 2020-1-01 x"), Err(ParseEntryError::MalformedEntry)));
    assert!(matches!(Entry::from_str("=> gemini://a/ 2020-01-01"), Err(ParseEntryError::MalformedEntry)));
    assert!(matches!(Entry::from_str("=>gemini://a/ 2020-01-01 x"), Err(ParseEntryError::MalformedEntry)));
    assert!(matches!(Entry::from_str("# 2020-01-01 x"), Err(ParseEntryError::MalformedEntry)));
}

#[test]
fn entry_dates_must_exist() {
    match Entry::from_str("=> gemini://a/ 2020-13-01 x") {
        Err(ParseEntryError::InvalidMonth(m)) => assert_eq!(m, "13"),
        _ => panic!("expected an invalid month"),
    }
    match Entry::from_str("=> gemini://a/ 2021-02-29 x") {
        Err(ParseEntryError::InvalidDay(d)) => assert_eq!(d, "29"),
        _ => panic!("expected an invalid day"),
    }
    assert!(Entry::from_str("=> gemini://a/ 2020-02-29 leap").is_ok());
    assert!(Entry::from_str("=> gemini://a/ 2000-02-29 leap").is_ok());
    assert!(Entry::from_str("=> gemini://a/ 1900-02-29 x").is_err());
}

#[test]
fn dates() {
    assert!(Date::from_ymd(2020, 2, 29).is_some());
    assert!(Date::from_ymd(2019, 2, 29).is_none());
    assert!(Date::from_ymd(2019, 4, 31).is_none());
    assert!(Date::from_ymd(2019, 0, 1).is_none());
    let d = Date::from_ymd(7, 3, 9).expect("date");
    assert_eq!(d.to_iso(), "0007-03-09");
    let d = Date::from_ymd(12345, 12, 31).expect("date");
    assert_eq!(d.to_iso(), "+12345-12-31");
    let d = Date::from_ymd(-44, 3, 15).expect("date");
    assert_eq!(d.to_iso(), "-0044-03-15");
}
