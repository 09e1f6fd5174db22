use seymour::codec::{Header, Page, ParseHeaderError, ParsePageError, ParseStatusError, Status};

fn parse(response: &str) -> Result<Page, ParsePageError> {
    Page::parse("gemini://example.org/".to_string(), response)
}

fn header(line: &str) -> Result<Header, ParseHeaderError> {
    Header::from_chars(&line.chars().collect())
}

#[test]
fn success_page_with_body() {
    let p = parse("20 text/gemini\r\n# T\r\nbody line\r\n").ok().expect("page");
    assert_eq!(p.url, "gemini://example.org/");
    assert_eq!(p.header.status, Status::Success);
    assert_eq!(p.header.meta, "text/gemini");
    assert_eq!(p.body.as_deref(), Some("# T\nbody line"));
}

#[test]
fn page_without_body() {
    let p = parse("31 gemini://example.org/new/\r\n").ok().expect("page");
    assert_eq!(p.header.status, Status::PermanentRedirect);
    assert!(p.header.status.is_redirect());
    assert_eq!(p.header.meta, "gemini://example.org/new/");
    assert!(p.body.is_none());
}

#[test]
fn blank_lines_inside_the_body_are_kept() {
    let p = parse("20 text/gemini\n\na\n\nb").ok().expect("page");
    assert_eq!(p.body.as_deref(), Some("\na\n\nb"));
}

#[test]
fn empty_response_has_no_header() {
    assert!(matches!(parse(""), Err(ParsePageError::MissingHeader)));
}

#[test]
fn unknown_status() {
    match parse("99 nope\r\n") {
        Err(ParsePageError::InvalidHeader(ParseHeaderError::InvalidStatus(
            ParseStatusError::InvalidStatus(s),
        ))) => assert_eq!(s, "99"),
        _ => panic!("expected an invalid status"),
    }
    assert!(matches!(header("2 x"), Err(ParseHeaderError::InvalidStatus(_))));
    assert!(matches!(header("200 x"), Err(ParseHeaderError::InvalidStatus(_))));
}

#[test]
fn missing_meta() {
    assert!(matches!(header("20"), Err(ParseHeaderError::MissingMeta)));
    assert!(matches!(header("  20  "), Err(ParseHeaderError::MissingMeta)));
    assert!(matches!(header("20 "), Err(ParseHeaderError::MissingMeta)));
    assert!(matches!(header("20\t"), Err(ParseHeaderError::MissingMeta)));
    assert!(matches!(header("20\tx"), Err(ParseHeaderError::InvalidStatus(_))));
}

#[test]
fn meta_is_the_rest_of_the_line() {
    let h = header(" 20 text/gemini; lang=en ").ok().expect("header");
    assert_eq!(h.status, Status::Success);
    assert_eq!(h.meta, "text/gemini; lang=en");
    let h = header("20  two  spaces").ok().expect("header");
    assert_eq!(h.meta, " two  spaces");
    let p = parse("20 text/gemini; lang=en\r\nbody").ok().expect("page");
    assert_eq!(p.header.meta, "text/gemini; lang=en");
}

#[test]
fn every_status_code() {
    let table = [
        ("10", Status::Input, 1),
        ("11", Status::SensitiveInput, 1),
        ("20", Status::Success, 2),
        ("30", Status::TemporaryRedirect, 3),
        ("31", Status::PermanentRedirect, 3),
        ("40", Status::TemporaryFailure, 4),
        ("41", Status::ServerUnavailable, 4),
        ("42", Status::CgiError, 4),
        ("43", Status::ProxyError, 4),
        ("44", Status::SlowDown, 4),
        ("50", Status::PermanentFailure, 5),
        ("51", Status::NotFound, 5),
        ("52", Status::Gone, 5),
        ("53", Status::ProxyRequestRefused, 5),
        ("59", Status::BadRequest, 5),
        ("60", Status::ClientCertificateRequired, 6),
        ("61", Status::CertificateNotAuthorized, 6),
        ("62", Status::CertificateNotValid, 6),
    ];
    for (code, status, class) in table {
        let h = header(&format!("{} m", code)).ok().expect("header");
        assert_eq!(h.status, status);
        assert_eq!(h.status.is_redirect(), class == 3);
    }
    for code in ["00", "12", "21", "32", "45", "54", "58", "63", "70", "ab"] {
        assert!(header(&format!("{} m", code)).is_err());
    }
}
