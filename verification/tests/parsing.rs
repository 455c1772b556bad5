use gemini::models::{Link, LinkParseError, Response, ResponseError};
use gemini::status::StatusCode;

#[test]
fn classify_boundaries() {
    assert_eq!(StatusCode::from(9u8), StatusCode::Unknown(9));
    assert_eq!(StatusCode::from(10u8), StatusCode::Input);
    assert_eq!(StatusCode::from(19u8), StatusCode::Input);
    assert_eq!(StatusCode::from(20u8), StatusCode::Success);
    assert_eq!(StatusCode::from(29u8), StatusCode::Success);
    assert_eq!(StatusCode::from(30u8), StatusCode::Redirect);
    assert_eq!(StatusCode::from(39u8), StatusCode::Redirect);
    assert_eq!(StatusCode::from(40u8), StatusCode::TemporaryFailure);
    assert_eq!(StatusCode::from(49u8), StatusCode::TemporaryFailure);
    assert_eq!(StatusCode::from(50u8), StatusCode::PermanentFailure);
    assert_eq!(StatusCode::from(59u8), StatusCode::PermanentFailure);
    assert_eq!(StatusCode::from(60u8), StatusCode::ClientCertificateRequired);
    assert_eq!(StatusCode::from(69u8), StatusCode::ClientCertificateRequired);
    assert_eq!(StatusCode::from(70u8), StatusCode::Unknown(70));
    assert_eq!(StatusCode::from(0u8), StatusCode::Unknown(0));
    assert_eq!(StatusCode::from(255u8), StatusCode::Unknown(255));
}

#[test]
fn classify_total_over_all_codes() {
    for code in 0u16..=255u16 {
        let c = StatusCode::from(code as u8);
        let expected = match code {
            10..=19 => StatusCode::Input,
            20..=29 => StatusCode::Success,
            30..=39 => StatusCode::Redirect,
            40..=49 => StatusCode::TemporaryFailure,
            50..=59 => StatusCode::PermanentFailure,
            60..=69 => StatusCode::ClientCertificateRequired,
            _ => StatusCode::Unknown(code as u8),
        };
        assert_eq!(c, expected);
    }
}

#[test]
fn parse_empty_fails() {
    let r = Response::parse("");
    assert!(matches!(r, Err(ResponseError::EmptyResponse)));
}

#[test]
fn parse_failure_status_line() {
    let r = Response::parse("51 temp down\r\nbody").unwrap();
    assert_eq!(r.status_code, StatusCode::PermanentFailure);
    assert_eq!(r.status_code_num, 51);
    assert_eq!(r.meta_description, "temp down");
    assert_eq!(r.body.as_deref(), Some("body"));
    assert!(r.links.is_empty());
}

#[test]
fn parse_missing_status_code() {
    assert!(matches!(
        Response::parse(" leading space"),
        Err(ResponseError::MissingStatusCode)
    ));
}

#[test]
fn parse_invalid_status_code() {
    assert!(matches!(
        Response::parse("abc meta"),
        Err(ResponseError::InvalidStatusCode)
    ));
    assert!(matches!(
        Response::parse("300 meta"),
        Err(ResponseError::InvalidStatusCode)
    ));
    assert!(matches!(
        Response::parse("-1 meta"),
        Err(ResponseError::InvalidStatusCode)
    ));
}

#[test]
fn parse_missing_meta() {
    assert!(matches!(
        Response::parse("20"),
        Err(ResponseError::MissingMetaDescription)
    ));
    assert!(matches!(
        Response::parse("20\nbody"),
        Err(ResponseError::MissingMetaDescription)
    ));
}

#[test]
fn parse_empty_meta_is_allowed() {
    let r = Response::parse("20 ").unwrap();
    assert_eq!(r.meta_description, "");
    assert!(r.body.is_none());
}

#[test]
fn parse_no_body_is_absent() {
    let r = Response::parse("20 text/gemini").unwrap();
    assert!(r.body.is_none());
}

#[test]
fn link_round_trip_annotation() {
    let raw = "20 text/gemini\r\nhello\n=> /a.gmi First\n=> /b.gmi\nplain tail";
    let r = Response::parse(raw).unwrap();
    assert_eq!(r.links.len(), 2);
    assert_eq!(r.links[0].href, "/a.gmi");
    assert_eq!(r.links[0].name.as_deref(), Some("First"));
    assert_eq!(r.links[1].href, "/b.gmi");
    assert!(r.links[1].name.is_none());
    let body = r.body.unwrap();
    let lines: Vec<&str> = body.lines().collect();
    assert_eq!(lines[0], "hello");
    assert_eq!(lines[1], "(0) => /a.gmi First");
    assert_eq!(lines[2], "(1) => /b.gmi");
    assert_eq!(lines[3], "plain tail");
}

#[test]
fn malformed_link_line_is_skipped() {
    let raw = "20 ok\n=>\n=> /real.gmi\n=>   ";
    let r = Response::parse(raw).unwrap();
    assert_eq!(r.links.len(), 1);
    assert_eq!(r.links[0].href, "/real.gmi");
    let body = r.body.unwrap();
    let lines: Vec<&str> = body.lines().collect();
    assert_eq!(lines[0], "=>");
    assert_eq!(lines[1], "(0) => /real.gmi");
    assert_eq!(lines[2], "=>   ");
}

#[test]
fn indented_link_line_counts() {
    let raw = "20 ok\n   => /ind.gmi Indented";
    let r = Response::parse(raw).unwrap();
    assert_eq!(r.links.len(), 1);
    assert_eq!(r.links[0].href, "/ind.gmi");
    let body = r.body.unwrap();
    assert_eq!(body, "(0) => /ind.gmi Indented");
}

#[test]
fn link_parse_plain() {
    let l = Link::parse("=> /a.gmi A name with spaces").unwrap();
    assert_eq!(l.href, "/a.gmi");
    assert_eq!(l.name.as_deref(), Some("A name with spaces"));
}

#[test]
fn link_parse_without_name() {
    let l = Link::parse("=>/bare").unwrap();
    assert_eq!(l.href, "/bare");
    assert!(l.name.is_none());
}

#[test]
fn link_parse_repeated_marker() {
    let l = Link::parse("=>=> /twice").unwrap();
    assert_eq!(l.href, "/twice");
    assert!(l.name.is_none());
}

#[test]
fn link_parse_rejects_non_link() {
    assert!(matches!(
        Link::parse("plain text"),
        Err(LinkParseError::InvalidFormat)
    ));
    assert!(matches!(Link::parse("=>"), Err(LinkParseError::InvalidFormat)));
    assert!(matches!(Link::parse("=>   "), Err(LinkParseError::InvalidFormat)));
}
