//! Locations: absolute addresses with a scheme, host, optional port, path
//! and optional query.
//!
//! A location is held as plain components; turning a string into components
//! and joining a relative reference against a base are done by the `url`
//! crate behind the two trusted wrappers below, whose results are named by
//! the uninterpreted functions [`url_parts`] and [`url_joined`].

use vstd::prelude::*;

use crate::text::{dec_digits, render_dec, starts_with, starts_with_str, str_eq};

verus! {

/// An absolute addressable reference. Equality is structural.
#[derive(Debug)]
pub struct Location {
    pub scheme: String,
    pub host: String,
    pub port: Option<u16>,
    pub path: String,
    pub query: Option<String>,
}

/// The mathematical value of a [`Location`].
#[verifier::ext_equal]
pub struct LocView {
    pub scheme: Seq<char>,
    pub host: Seq<char>,
    pub port: Option<u16>,
    pub path: Seq<char>,
    pub query: Option<Seq<char>>,
}

impl View for Location {
    type V = LocView;

    open spec fn view(&self) -> LocView {
        LocView {
            scheme: self.scheme@,
            host: self.host@,
            port: self.port,
            path: self.path@,
            query: match self.query {
                Some(q) => Some(q@),
                None => None,
            },
        }
    }
}

impl Clone for Location {
    fn clone(&self) -> (r: Self)
        ensures
            r@ == self@,
    {
        let r = Location {
            scheme: self.scheme.clone(),
            host: self.host.clone(),
            port: self.port,
            path: self.path.clone(),
            query: match &self.query {
                Some(q) => Some(q.clone()),
                None => None,
            },
        };
        proof {
            assert(r@ =~= self@);
        }
        r
    }
}

/// The components the `url` crate gives for a string, when it parses as an
/// absolute URL; `None` when it does not. A pure function of the string.
pub uninterp spec fn url_parts(s: Seq<char>) -> Option<LocView>;

/// The components the `url` crate gives for a relative reference joined
/// against a base string, `None` when the base does not parse or the join
/// fails. A pure function of the two strings.
pub uninterp spec fn url_joined(base: Seq<char>, rel: Seq<char>) -> Option<LocView>;

/// The value of an optional location.
pub open spec fn opt_loc_view(r: Option<Location>) -> Option<LocView> {
    match r {
        Some(l) => Some(l@),
        None => None,
    }
}

/// Relies on `url::Url::parse`: whether a string parses as an absolute URL,
/// and the scheme, host, port, path and query of the result, depend on the
/// string alone. A URL without a host (a mail address, say) is carried with
/// an empty host.
#[verifier::external_body]
pub(crate) fn parse_absolute(s: &str) -> (r: Option<Location>)
    ensures
        opt_loc_view(r) == url_parts(s@),
{
    match url::Url::parse(s) {
        Ok(u) => Some(Location {
            scheme: u.scheme().to_string(),
            host: u.host_str().unwrap_or("").to_string(),
            port: u.port(),
            path: u.path().to_string(),
            query: u.query().map(|q| q.to_string()),
        }),
        Err(_) => None,
    }
}

/// Relies on `url::Url::join`, with `url::Url::parse` rebuilding the base:
/// the joined URL's components depend on the two strings alone.
#[verifier::external_body]
pub(crate) fn join_with_base(base: &str, rel: &str) -> (r: Option<Location>)
    ensures
        opt_loc_view(r) == url_joined(base@, rel@),
{
    let b = match url::Url::parse(base) {
        Ok(b) => b,
        Err(_) => return None,
    };
    match b.join(rel) {
        Ok(u) => Some(Location {
            scheme: u.scheme().to_string(),
            host: u.host_str().unwrap_or("").to_string(),
            port: u.port(),
            path: u.path().to_string(),
            query: u.query().map(|q| q.to_string()),
        }),
        Err(_) => None,
    }
}

/// The textual form of a port: nothing, or a colon and its digits.
pub open spec fn port_str(p: Option<u16>) -> Seq<char> {
    match p {
        Some(v) => seq![':'] + dec_digits(v as nat),
        None => Seq::empty(),
    }
}

/// The textual form of a query: nothing, or a question mark and its text.
pub open spec fn query_str(q: Option<Seq<char>>) -> Seq<char> {
    match q {
        Some(v) => seq!['?'] + v,
        None => Seq::empty(),
    }
}

/// The textual form of a location:
/// `scheme://host[:port]path[?query]`.
pub open spec fn loc_str(v: LocView) -> Seq<char> {
    v.scheme + seq![':', '/', '/'] + v.host + port_str(v.port) + v.path + query_str(v.query)
}

impl Location {
    /// The location's textual form, per [`loc_str`].
    pub fn to_url_string(&self) -> (r: String)
        ensures
            r@ == loc_str(self@),
    {
        proof {
            reveal_strlit("://");
            reveal_strlit(":");
            reveal_strlit("?");
        }
        let mut r = String::new();
        r.append(self.scheme.as_str());
        r.append("://");
        r.append(self.host.as_str());
        match self.port {
            Some(p) => {
                r.append(":");
                let digits = render_dec(p as usize);
                r.append(digits.as_str());
            },
            None => {},
        }
        r.append(self.path.as_str());
        match &self.query {
            Some(q) => {
                r.append("?");
                r.append(q.as_str());
            },
            None => {},
        }
        proof {
            assert(":"@ =~= seq![':']);
            assert("?"@ =~= seq!['?']);
            assert("://"@ =~= seq![':', '/', '/']);
            assert(r@ =~= loc_str(self@));
        }
        r
    }

    /// The same location with its query replaced.
    pub fn with_query(&self, query: Option<String>) -> (r: Location)
        ensures
            r@ == (LocView {
                query: match query {
                    Some(q) => Some(q@),
                    None => None,
                },
                ..self@
            }),
    {
        let r = Location {
            scheme: self.scheme.clone(),
            host: self.host.clone(),
            port: self.port,
            path: self.path.clone(),
            query,
        };
        proof {
            assert(r@ =~= (LocView {
                query: r@.query,
                ..self@
            }));
        }
        r
    }
}

/// Whether two locations are the same address, component by component.
pub fn loc_eq(a: &Location, b: &Location) -> (r: bool)
    ensures
        r == (a@ == b@),
{
    if !str_eq(a.scheme.as_str(), b.scheme.as_str()) {
        return false;
    }
    if !str_eq(a.host.as_str(), b.host.as_str()) {
        return false;
    }
    let ports_eq = match (a.port, b.port) {
        (Some(x), Some(y)) => x == y,
        (None, None) => true,
        _ => false,
    };
    if !ports_eq {
        return false;
    }
    if !str_eq(a.path.as_str(), b.path.as_str()) {
        return false;
    }
    let queries_eq = match (&a.query, &b.query) {
        (Some(x), Some(y)) => str_eq(x.as_str(), y.as_str()),
        (None, None) => true,
        _ => false,
    };
    if !queries_eq {
        return false;
    }
    proof {
        assert(a@ =~= b@);
    }
    true
}

/// The scheme prefix a bare start address is completed with.
pub open spec fn scheme_prefix() -> Seq<char> {
    seq!['g', 'e', 'm', 'i', 'n', 'i', ':', '/', '/']
}

/// The text a start address is parsed from: as given when it already names
/// the protocol's scheme, else with the scheme prefix put before it.
pub open spec fn initial_text(s: Seq<char>) -> Seq<char> {
    if starts_with(s, scheme_prefix()) {
        s
    } else {
        scheme_prefix() + s
    }
}

/// The start location for a command-line address, per [`initial_text`]:
/// the address, completed with the scheme when it lacks one, parsed as an
/// absolute URL.
pub fn initialize_url(input: &str) -> (r: Option<Location>)
    ensures
        opt_loc_view(r) == url_parts(initial_text(input@)),
{
    proof {
        reveal_strlit("gemini://");
    }
    proof {
        assert("gemini://"@ =~= scheme_prefix());
    }
    if starts_with_str(input, "gemini://") {
        parse_absolute(input)
    } else {
        let mut s = String::new();
        s.append("gemini://");
        s.append(input);
        parse_absolute(s.as_str())
    }
}

} // verus!
