use seymour::codec::{Header, Page, Status};
use seymour::fetch::{request_line, CheckFeedError, FetchStep, Redirects, Target, UrlParts};

fn parts(scheme: &str, host: Option<&str>, port: Option<u16>) -> UrlParts {
    UrlParts { scheme: scheme.to_string(), host: host.map(|h| h.to_string()), port }
}

fn page(status: Status, meta: &str) -> Page {
    Page {
        url: "gemini://a/".to_string(),
        header: Header { status, meta: meta.to_string() },
        body: None,
    }
}

#[test]
fn target_from_parts() {
    let t = Target::from_parts("gemini://h/", parts("gemini", Some("h"), None)).ok().expect("target");
    assert_eq!((t.host.as_str(), t.port), ("h", 1965));
    let t = Target::from_parts("gemini://h:7/", parts("gemini", Some("h"), Some(7))).ok().expect("target");
    assert_eq!(t.port, 7);
    match Target::from_parts("https://h/", parts("https", Some("h"), None)) {
        Err(CheckFeedError::UnsupportedScheme(u)) => assert_eq!(u, "https://h/"),
        _ => panic!("expected an unsupported scheme"),
    }
    assert!(matches!(
        Target::from_parts("gemini:x", parts("gemini", None, None)),
        Err(CheckFeedError::MissingHost(_))
    ));
}

#[test]
fn target_resolve() {
    let t = Target::resolve("gemini://example.org:1966/feed").ok().expect("target");
    assert_eq!((t.host.as_str(), t.port), ("example.org", 1966));
    let t = Target::resolve("gemini://example.org/feed").ok().expect("target");
    assert_eq!((t.host.as_str(), t.port), ("example.org", 1965));
    assert!(matches!(Target::resolve("https://example.org/"), Err(CheckFeedError::UnsupportedScheme(_))));
    assert!(matches!(Target::resolve("not a url"), Err(CheckFeedError::InvalidUrl(_))));
}

#[test]
fn request_is_the_url_and_crlf() {
    assert_eq!(request_line("gemini://a/b"), "gemini://a/b\r\n");
}

fn run(statuses: &[Status]) -> (usize, Option<String>) {
    let mut r = Redirects::new("gemini://a/".to_string());
    let mut fetches = 0;
    for (i, st) in statuses.iter().enumerate() {
        fetches += 1;
        match r.on_page(page(*st, &format!("gemini://a/{}", i + 1))) {
            FetchStep::Done(p) => return (fetches, Some(p.header.meta)),
            FetchStep::Follow(u) => assert_eq!(u, r.url),
            FetchStep::TooManyRedirects => return (fetches, None),
        }
    }
    panic!("ran out of pages")
}

#[test]
fn five_redirects_then_a_page() {
    let mut sts = vec![Status::TemporaryRedirect; 5];
    sts.push(Status::Success);
    assert_eq!(run(&sts), (6, Some("gemini://a/6".to_string())));
    assert_eq!(run(&[Status::NotFound]), (1, Some("gemini://a/1".to_string())));
}

#[test]
fn six_redirects_give_up() {
    let sts = vec![Status::PermanentRedirect; 8];
    assert_eq!(run(&sts), (6, None));
}
