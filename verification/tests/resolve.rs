use gemini::client::{Client, LinkError, ResolvedTarget};
use gemini::location::{initialize_url, loc_eq, Location};
use gemini::models::Pager;

fn loc(host: &str, path: &str) -> Location {
    Location {
        scheme: "gemini".to_string(),
        host: host.to_string(),
        port: None,
        path: path.to_string(),
        query: None,
    }
}

fn client_at(host: &str, path: &str) -> Client {
    let l = loc(host, path);
    let mut c = Client::new(&l, Pager::Less);
    c.begin_request(l);
    c
}

#[test]
fn absolute_link_navigates_unchanged() {
    let c = client_at("host", "/dir/page");
    match c.click_link("gemini://other.example/x").unwrap() {
        ResolvedTarget::Navigate(l) => {
            assert_eq!(l.scheme, "gemini");
            assert_eq!(l.host, "other.example");
            assert_eq!(l.path, "/x");
        }
        ResolvedTarget::External(_) => panic!("expected navigation"),
    }
}

#[test]
fn foreign_scheme_is_external() {
    let c = client_at("host", "/dir/page");
    match c.click_link("https://example.com/x").unwrap() {
        ResolvedTarget::External(s) => assert_eq!(s, "https://example.com/x"),
        ResolvedTarget::Navigate(_) => panic!("expected an external action"),
    }
}

#[test]
fn mail_scheme_is_external() {
    let c = client_at("host", "/dir/page");
    match c.click_link("mailto:someone@example.com").unwrap() {
        ResolvedTarget::External(s) => assert_eq!(s, "mailto:someone@example.com"),
        ResolvedTarget::Navigate(_) => panic!("expected an external action"),
    }
}

#[test]
fn absolute_path_joins_from_root() {
    let c = client_at("host", "/dir/page");
    match c.click_link("/foo").unwrap() {
        ResolvedTarget::Navigate(l) => {
            assert_eq!(l.scheme, "gemini");
            assert_eq!(l.host, "host");
            assert_eq!(l.path, "/foo");
        }
        ResolvedTarget::External(_) => panic!("expected navigation"),
    }
}

#[test]
fn relative_path_keeps_directory() {
    let c = client_at("host", "/dir/page");
    match c.click_link("bar").unwrap() {
        ResolvedTarget::Navigate(l) => {
            assert_eq!(l.host, "host");
            assert_eq!(l.path, "/dir/bar");
        }
        ResolvedTarget::External(_) => panic!("expected navigation"),
    }
}

#[test]
fn network_path_keeps_scheme() {
    let c = client_at("host", "/dir/page");
    match c.click_link("//other.host/p").unwrap() {
        ResolvedTarget::Navigate(l) => {
            assert_eq!(l.scheme, "gemini");
            assert_eq!(l.host, "other.host");
            assert_eq!(l.path, "/p");
        }
        ResolvedTarget::External(_) => panic!("expected navigation"),
    }
}

#[test]
fn self_link_with_single_history_entry_fails() {
    let c = client_at("host", "/dir/page");
    let r = c.click_link("gemini://host/dir/page");
    assert!(matches!(r, Err(LinkError::NoPreviousLocation)));
}

#[test]
fn self_link_resolves_to_previous_entry() {
    let mut c = client_at("host", "/start");
    c.begin_request(loc("host", "/dir/page"));
    match c.click_link("gemini://host/dir/page").unwrap() {
        ResolvedTarget::Navigate(l) => {
            assert!(loc_eq(&l, &loc("host", "/start")));
        }
        ResolvedTarget::External(_) => panic!("expected navigation"),
    }
}

#[test]
fn initialize_url_accepts_prefixed_address() {
    let l = initialize_url("gemini://example.com/page").unwrap();
    assert_eq!(l.scheme, "gemini");
    assert_eq!(l.host, "example.com");
    assert_eq!(l.path, "/page");
}

#[test]
fn initialize_url_completes_bare_address() {
    let l = initialize_url("example.com/page").unwrap();
    assert_eq!(l.scheme, "gemini");
    assert_eq!(l.host, "example.com");
    assert_eq!(l.path, "/page");
}

#[test]
fn to_url_string_round_trips() {
    let l = Location {
        scheme: "gemini".to_string(),
        host: "h.example".to_string(),
        port: Some(1966),
        path: "/p/q".to_string(),
        query: Some("key=value".to_string()),
    };
    assert_eq!(l.to_url_string(), "gemini://h.example:1966/p/q?key=value");
    assert_eq!(loc("host", "/x").to_url_string(), "gemini://host/x");
}

#[test]
fn explicit_port_and_query_are_kept() {
    let l = initialize_url("gemini://host.example:1966/x?q=term").unwrap();
    assert_eq!(l.port, Some(1966));
    assert_eq!(l.query.as_deref(), Some("q=term"));
    let c = client_at("host", "/dir/page");
    match c.click_link("/search?q=x").unwrap() {
        ResolvedTarget::Navigate(l) => {
            assert_eq!(l.path, "/search");
            assert_eq!(l.query.as_deref(), Some("q=x"));
        }
        ResolvedTarget::External(_) => panic!("expected navigation"),
    }
}

#[test]
fn with_query_replaces_only_the_query() {
    let l = loc("host", "/x");
    let with = l.with_query(Some("reply".to_string()));
    assert_eq!(with.host, "host");
    assert_eq!(with.path, "/x");
    assert_eq!(with.query.as_deref(), Some("reply"));
    let without = with.with_query(None);
    assert!(without.query.is_none());
    assert!(loc_eq(&without, &l));
}
