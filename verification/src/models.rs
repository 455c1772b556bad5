//! The protocol's data model: links, responses, and their parsers.
//!
//! A raw response is one status line — a numeric code, a space, a meta
//! string — followed by body lines. Body lines beginning (after leading
//! whitespace) with the marker `=>` carry links; parsing extracts them in
//! order and annotates each such line with its link index so a display
//! layer can show selectable markers.

use vstd::prelude::*;

use crate::status::{classify, StatusCode};
use crate::text::{
    dec_digits, find_char, find_char_from, find_space, find_space_from, join_lines, render_dec,
    skip_spaces, skip_spaces_from, spec_join, spec_lines, spec_parse_u8, split_lines, starts_with,
    starts_with_str, strip_markers, strip_markers_str, trim_spec, trim_start_spec, trim_start_str,
    trim_str,
};

verus! {

/// The pager program a session displays documents with.
#[derive(Debug, Clone, Copy, PartialEq, Eq, Structural)]
pub enum Pager {
    Less,
    More,
    Bat,
    Neovim,
}

/// Why a body line could not be read as a link.
#[derive(Debug, Clone, Copy, PartialEq, Eq, Structural)]
pub enum LinkParseError {
    InvalidFormat,
}

/// Why a raw response could not be parsed.
#[derive(Debug, Clone, Copy, PartialEq, Eq, Structural)]
pub enum ResponseError {
    EmptyResponse,
    MissingStatusCode,
    InvalidStatusCode,
    MissingMetaDescription,
}

/// A link extracted from a body line: a target reference and an optional
/// display name.
#[derive(Debug)]
pub struct Link {
    pub href: String,
    pub name: Option<String>,
}

/// The mathematical value of a [`Link`].
#[verifier::ext_equal]
pub struct LinkV {
    pub href: Seq<char>,
    pub name: Option<Seq<char>>,
}

impl View for Link {
    type V = LinkV;

    open spec fn view(&self) -> LinkV {
        LinkV {
            href: self.href@,
            name: match self.name {
                Some(n) => Some(n@),
                None => None,
            },
        }
    }
}

/// Whether `l` is a link line: its content, after leading whitespace,
/// starts with the marker `=>`.
pub open spec fn is_link_line(l: Seq<char>) -> bool {
    starts_with(trim_start_spec(l), seq!['=', '>'])
}

/// The payload of a link line: what remains after the leading whitespace,
/// the marker repetitions, and surrounding whitespace are stripped.
pub open spec fn link_payload(l: Seq<char>) -> Seq<char> {
    trim_spec(strip_markers(trim_start_spec(l)))
}

/// Where the display name begins in the payload `r`: after the first
/// whitespace run.
pub open spec fn name_start(r: Seq<char>) -> int {
    find_space(r) + skip_spaces(r.subrange(find_space(r), r.len() as int))
}

/// The link a body line carries, if any: `None` for a line that is not a
/// link line, and for a link line whose payload is empty (such a line is
/// skipped, not an error). Otherwise the payload up to the first whitespace
/// run is the target, and what follows the run, as it stands, is the name —
/// absent when nothing follows.
pub open spec fn link_of_line(l: Seq<char>) -> Option<LinkV> {
    if !is_link_line(l) {
        None
    } else if link_payload(l).len() == 0 {
        None
    } else {
        let r = link_payload(l);
        if find_space(r) >= r.len() {
            Some(LinkV { href: r, name: None })
        } else {
            Some(
                LinkV {
                    href: r.subrange(0, find_space(r)),
                    name: Some(r.subrange(name_start(r), r.len() as int)),
                },
            )
        }
    }
}

impl Link {
    /// Reads one body line as a link, per [`link_of_line`]; a line that
    /// carries none is an `InvalidFormat` error.
    pub fn parse(line: &str) -> (r: Result<Link, LinkParseError>)
        ensures
            match r {
                Ok(link) => link_of_line(line@) == Some(link@),
                Err(e) => link_of_line(line@) is None && e == LinkParseError::InvalidFormat,
            },
    {
        proof {
            reveal_strlit("=>");
        }
        let t0 = trim_start_str(line);
        if !starts_with_str(t0, "=>") {
            proof {
                assert("=>"@ =~= seq!['=', '>']);
            }
            return Err(LinkParseError::InvalidFormat);
        }
        proof {
            assert("=>"@ =~= seq!['=', '>']);
        }
        let payload = trim_str(strip_markers_str(t0));
        let ghost r = link_payload(line@);
        let n = payload.unicode_len();
        proof {
            assert(payload@ == r);
            assert(payload@.subrange(0, n as int) =~= payload@);
        }
        if n == 0 {
            return Err(LinkParseError::InvalidFormat);
        }
        let sp = find_space_from(payload, 0);
        if sp == n {
            let link = Link { href: payload.to_owned(), name: None };
            return Ok(link);
        }
        let ns = skip_spaces_from(payload, sp);
        let href = payload.substring_char(0, sp).to_owned();
        let name = payload.substring_char(ns, n).to_owned();
        proof {
            assert(payload@.subrange(sp as int, n as int) =~= r.subrange(
                find_space(r),
                r.len() as int,
            ));
            assert(ns == name_start(r));
        }
        Ok(Link { href, name: Some(name) })
    }
}

/// How many of the given body lines carry a link.
pub open spec fn links_count(lines: Seq<Seq<char>>) -> nat
    decreases lines.len(),
{
    if lines.len() == 0 {
        0
    } else {
        links_count(lines.drop_last()) + if link_of_line(lines.last()) is Some {
            1nat
        } else {
            0nat
        }
    }
}

/// The links the given body lines carry, in document order.
pub open spec fn spec_links(lines: Seq<Seq<char>>) -> Seq<LinkV>
    decreases lines.len(),
{
    if lines.len() == 0 {
        Seq::empty()
    } else {
        match link_of_line(lines.last()) {
            Some(l) => spec_links(lines.drop_last()).push(l),
            None => spec_links(lines.drop_last()),
        }
    }
}

/// A link line annotated with its link index `k`: `(k) ` before the line's
/// content with leading whitespace stripped.
pub open spec fn annotate_line(l: Seq<char>, k: nat) -> Seq<char> {
    seq!['('] + dec_digits(k) + seq![')', ' '] + trim_start_spec(l)
}

/// The given body lines with each link-carrying line annotated by its link
/// index; every other line passes through unchanged.
pub open spec fn spec_annotated(lines: Seq<Seq<char>>) -> Seq<Seq<char>>
    decreases lines.len(),
{
    if lines.len() == 0 {
        Seq::empty()
    } else {
        spec_annotated(lines.drop_last()).push(
            if link_of_line(lines.last()) is Some {
                annotate_line(lines.last(), links_count(lines.drop_last()))
            } else {
                lines.last()
            },
        )
    }
}

/// There are as many extracted links as link-carrying lines.
pub proof fn lemma_links_len(lines: Seq<Seq<char>>)
    ensures
        spec_links(lines).len() == links_count(lines),
    decreases lines.len(),
{
    if lines.len() > 0 {
        lemma_links_len(lines.drop_last());
    }
}

/// Annotation keeps the number of lines.
pub proof fn lemma_annotated_len(lines: Seq<Seq<char>>)
    ensures
        spec_annotated(lines).len() == lines.len(),
    decreases lines.len(),
{
    if lines.len() > 0 {
        lemma_annotated_len(lines.drop_last());
    }
}

/// Annotation and extraction agree, line by line: annotating keeps every
/// line in place; a line that carries no link passes through unchanged; and
/// the line that yields the `k`-th extracted link — `k` its count of
/// link-carrying predecessors — is annotated with exactly the index `k`,
/// the index that link has in the extracted list.
pub proof fn lemma_annotation_matches_links(lines: Seq<Seq<char>>, j: int)
    requires
        0 <= j < lines.len(),
    ensures
        spec_annotated(lines).len() == lines.len(),
        spec_links(lines).len() == links_count(lines),
        link_of_line(lines[j]) matches Some(l) ==> {
            &&& links_count(lines.subrange(0, j)) < spec_links(lines).len()
            &&& spec_links(lines)[links_count(lines.subrange(0, j)) as int] == l
            &&& spec_annotated(lines)[j] == annotate_line(
                lines[j],
                links_count(lines.subrange(0, j)),
            )
        },
        link_of_line(lines[j]) is None ==> spec_annotated(lines)[j] == lines[j],
    decreases lines.len(),
{
    lemma_links_len(lines);
    lemma_links_len(lines.subrange(0, j));
    lemma_annotated_len(lines);
    lemma_annotated_len(lines.drop_last());
    if j == lines.len() - 1 {
        assert(lines.subrange(0, j) =~= lines.drop_last());
        lemma_links_len(lines.drop_last());
        assert(lines.last() == lines[j]);
    } else {
        let head = lines.drop_last();
        lemma_annotation_matches_links(head, j);
        lemma_links_len(head);
        assert(head.subrange(0, j) =~= lines.subrange(0, j));
        assert(head[j] == lines[j]);
        if link_of_line(lines[j]) is Some {
            assert(links_count(lines.subrange(0, j)) <= links_count(head)) by {
                lemma_links_count_prefix(head, j);
            }
        }
    }
}

/// A prefix never carries more links than the whole.
pub proof fn lemma_links_count_prefix(lines: Seq<Seq<char>>, j: int)
    requires
        0 <= j <= lines.len(),
    ensures
        links_count(lines.subrange(0, j)) <= links_count(lines),
    decreases lines.len() - j,
{
    if j < lines.len() {
        let head = lines.drop_last();
        if j == lines.len() - 1 {
            assert(lines.subrange(0, j) =~= head);
        } else {
            lemma_links_count_prefix(head, j);
            assert(head.subrange(0, j) =~= lines.subrange(0, j));
        }
    } else {
        assert(lines.subrange(0, j) =~= lines);
    }
}

/// The lines after the status line.
pub open spec fn body_lines(s: Seq<char>) -> Seq<Seq<char>> {
    spec_lines(s).subrange(1, spec_lines(s).len() as int)
}

/// The body a raw response yields: its annotated body lines rejoined with
/// newlines, absent — not empty — when nothing remains.
pub open spec fn spec_body(s: Seq<char>) -> Option<Seq<char>> {
    if spec_join(spec_annotated(body_lines(s))).len() == 0 {
        None
    } else {
        Some(spec_join(spec_annotated(body_lines(s))))
    }
}

/// The status token of a status line: everything before the first space.
pub open spec fn status_token(l: Seq<char>) -> Seq<char> {
    l.subrange(0, find_char(l, ' '))
}

/// The meta string of a status line: everything after the first space,
/// absent when the line has no space.
pub open spec fn meta_of(l: Seq<char>) -> Option<Seq<char>> {
    if find_char(l, ' ') < l.len() {
        Some(l.subrange(find_char(l, ' ') + 1, l.len() as int))
    } else {
        None
    }
}

/// The mathematical value of a [`Response`].
#[verifier::ext_equal]
pub struct ResponseV {
    pub status_code: StatusCode,
    pub status_code_num: u8,
    pub meta_description: Seq<char>,
    pub body: Option<Seq<char>>,
    pub links: Seq<LinkV>,
}

/// A parsed response: the numeric status code, its class, the meta string,
/// the annotated body (absent when empty), and the extracted links.
#[derive(Debug)]
pub struct Response {
    pub status_code: StatusCode,
    pub status_code_num: u8,
    pub meta_description: String,
    pub body: Option<String>,
    pub links: Vec<Link>,
}

impl View for Response {
    type V = ResponseV;

    open spec fn view(&self) -> ResponseV {
        ResponseV {
            status_code: self.status_code,
            status_code_num: self.status_code_num,
            meta_description: self.meta_description@,
            body: match self.body {
                Some(b) => Some(b@),
                None => None,
            },
            links: self.links@.map_values(|l: Link| l@),
        }
    }
}

/// What parsing a raw response yields.
///
/// No lines at all is an empty response; an empty status token means the
/// status code is missing; a token that does not denote a number up to 255
/// is an invalid status code; a status line without a space after the token
/// has no meta string. Otherwise the document carries the code, its class,
/// the meta string, the annotated body and the links of the remaining
/// lines.
pub open spec fn spec_parse_response(s: Seq<char>) -> Result<ResponseV, ResponseError> {
    if spec_lines(s).len() == 0 {
        Err(ResponseError::EmptyResponse)
    } else if status_token(spec_lines(s)[0]).len() == 0 {
        Err(ResponseError::MissingStatusCode)
    } else {
        match spec_parse_u8(status_token(spec_lines(s)[0])) {
            None => Err(ResponseError::InvalidStatusCode),
            Some(code) => match meta_of(spec_lines(s)[0]) {
                None => Err(ResponseError::MissingMetaDescription),
                Some(meta) => Ok(
                    ResponseV {
                        status_code: classify(code),
                        status_code_num: code,
                        meta_description: meta,
                        body: spec_body(s),
                        links: spec_links(body_lines(s)),
                    },
                ),
            },
        }
    }
}

impl Response {
    /// Parses a raw response, per [`spec_parse_response`].
    pub fn parse(raw: &str) -> (r: Result<Response, ResponseError>)
        ensures
            match r {
                Ok(resp) => spec_parse_response(raw@) == Ok::<ResponseV, ResponseError>(resp@),
                Err(e) => spec_parse_response(raw@) == Err::<ResponseV, ResponseError>(e),
            },
    {
        let lines = split_lines(raw);
        let ghost model = spec_lines(raw@);
        if lines.len() == 0 {
            return Err(ResponseError::EmptyResponse);
        }
        let fl = lines[0];
        let n1 = fl.unicode_len();
        let sp = find_char_from(fl, 0, ' ');
        proof {
            assert(fl@.subrange(0, n1 as int) =~= fl@);
            assert(fl@ == model[0]);
        }
        if sp == 0 {
            proof {
                assert(status_token(model[0]).len() == 0);
            }
            return Err(ResponseError::MissingStatusCode);
        }
        let token = fl.substring_char(0, sp);
        let code_opt = crate::text::parse_u8_token(token);
        if code_opt.is_none() {
            return Err(ResponseError::InvalidStatusCode);
        }
        let code = code_opt.unwrap();
        if sp == n1 {
            return Err(ResponseError::MissingMetaDescription);
        }
        let meta_description = fl.substring_char(sp + 1, n1).to_owned();
        let ghost bl = body_lines(raw@);
        let mut out_lines: Vec<String> = Vec::new();
        let mut links: Vec<Link> = Vec::new();
        let mut i: usize = 1;
        proof {
            assert(bl.subrange(0, 0) =~= Seq::<Seq<char>>::empty());
            assert(out_lines@.map_values(|l: String| l@) =~= spec_annotated(bl.subrange(0, 0)));
            assert(links@.map_values(|l: Link| l@) =~= spec_links(bl.subrange(0, 0)));
        }
        while i < lines.len()
            invariant
                1 <= i <= lines.len(),
                lines@.map_values(|l: &str| l@) == model,
                model == spec_lines(raw@),
                bl == body_lines(raw@),
                bl.len() == lines@.len() - 1,
                forall|k: int| 0 <= k < bl.len() ==> bl[k] == #[trigger] lines@[k + 1]@,
                out_lines@.map_values(|l: String| l@) == spec_annotated(bl.subrange(0, i - 1)),
                links@.map_values(|l: Link| l@) == spec_links(bl.subrange(0, i - 1)),
                links@.len() == links_count(bl.subrange(0, i - 1)),
            decreases lines.len() - i,
        {
            let line = lines[i];
            let ghost pre = bl.subrange(0, i - 1);
            let ghost cur = bl.subrange(0, i as int);
            proof {
                assert(cur.drop_last() =~= pre);
                assert(cur.last() == bl[i - 1]);
                assert(bl[i - 1] == line@);
            }
            match Link::parse(line) {
                Ok(link) => {
                    let idx = links.len();
                    let mut a = String::new();
                    a.append("(");
                    let digits = render_dec(idx);
                    a.append(digits.as_str());
                    a.append(") ");
                    a.append(trim_start_str(line));
                    proof {
                        reveal_strlit("(");
                        reveal_strlit(") ");
                        assert(a@ =~= annotate_line(line@, idx as nat));
                    }
                    out_lines.push(a);
                    links.push(link);
                    proof {
                        assert(out_lines@.map_values(|l: String| l@) =~= spec_annotated(cur));
                        assert(links@.map_values(|l: Link| l@) =~= spec_links(cur));
                    }
                },
                Err(_) => {
                    out_lines.push(line.to_owned());
                    proof {
                        assert(out_lines@.map_values(|l: String| l@) =~= spec_annotated(cur));
                        assert(links@.map_values(|l: Link| l@) =~= spec_links(cur));
                    }
                },
            }
            i += 1;
        }
        proof {
            assert(bl.subrange(0, bl.len() as int) =~= bl);
        }
        let body_str = join_lines(&out_lines);
        let body = if body_str.unicode_len() == 0 {
            None
        } else {
            Some(body_str)
        };
        let resp = Response {
            status_code: StatusCode::from(code),
            status_code_num: code,
            meta_description,
            body,
            links,
        };
        proof {
            assert(resp@ =~= spec_parse_response(raw@)->Ok_0);
        }
        Ok(resp)
    }
}

} // verus!
