//! The navigation session: current location, visited history, bounded
//! redirect following, and the routing of one navigation step.
//!
//! A session owns its mutable state; one navigation step appends the target
//! to the history, fetches (outside this module), and routes on the status
//! class of the parsed response. Redirect chains are bounded: when the
//! counter reaches the configured limit the session falls back to the last
//! known good location instead of following further.

use vstd::prelude::*;

use crate::location::{
    join_with_base, loc_eq, loc_str, opt_loc_view, parse_absolute, url_joined, url_parts, Location,
    LocView,
};
use crate::models::{LinkV, Pager, Response, ResponseV};
use crate::status::{classify, StatusCode};
use crate::text::{parse_dec_bounded, spec_parse_dec, starts_with, starts_with_str, str_eq};

verus! {

/// Why a link string could not be resolved against the session.
#[derive(Debug, Clone, Copy, PartialEq, Eq, Structural)]
pub enum LinkError {
    /// A self-referential link with no earlier history entry to return to.
    NoPreviousLocation,
    /// A relative reference that could not be joined against the current
    /// location.
    RelativeResolutionError,
}

/// What a link string resolves to: a location to navigate to, or a
/// reference for an outside opener, with no navigation.
#[derive(Debug)]
pub enum ResolvedTarget {
    Navigate(Location),
    External(String),
}

/// The mathematical value of a [`ResolvedTarget`].
pub enum ResolvedV {
    Navigate(LocView),
    External(Seq<char>),
}

impl View for ResolvedTarget {
    type V = ResolvedV;

    open spec fn view(&self) -> ResolvedV {
        match self {
            ResolvedTarget::Navigate(l) => ResolvedV::Navigate(l@),
            ResolvedTarget::External(s) => ResolvedV::External(s@),
        }
    }
}

/// What one navigation step asks of the driving loop.
#[derive(Debug)]
pub enum Outcome {
    /// An input status: prompt the user — secretly unless the exact code
    /// asks for a visible prompt — and re-navigate through the reply.
    PromptInput { secret: bool },
    /// A success status: the session recorded the location as last known
    /// good; display the document and await the next target.
    ShowPage,
    /// A redirect resolved to this next target.
    Goto(Location),
    /// A redirect or link left navigation and names an outside reference.
    OpenExternal(String),
    /// The redirect bound was reached: fall back to the last known good
    /// location, or terminate when none exists.
    Fallback(Option<Location>),
    /// A redirect whose target could not be resolved; the session ends.
    BadRedirect(LinkError),
    /// A failure status: report the meta text and terminate.
    Failed,
    /// A status code outside every documented range: report and terminate.
    InvalidCode(u8),
}

/// The mathematical value of an [`Outcome`].
pub enum OutcomeV {
    PromptInput { secret: bool },
    ShowPage,
    Goto(LocView),
    OpenExternal(Seq<char>),
    Fallback(Option<LocView>),
    BadRedirect(LinkError),
    Failed,
    InvalidCode(u8),
}

impl View for Outcome {
    type V = OutcomeV;

    open spec fn view(&self) -> OutcomeV {
        match self {
            Outcome::PromptInput { secret } => OutcomeV::PromptInput { secret: *secret },
            Outcome::ShowPage => OutcomeV::ShowPage,
            Outcome::Goto(l) => OutcomeV::Goto(l@),
            Outcome::OpenExternal(s) => OutcomeV::OpenExternal(s@),
            Outcome::Fallback(l) => OutcomeV::Fallback(opt_loc_view(*l)),
            Outcome::BadRedirect(e) => OutcomeV::BadRedirect(*e),
            Outcome::Failed => OutcomeV::Failed,
            Outcome::InvalidCode(c) => OutcomeV::InvalidCode(*c),
        }
    }
}

/// A navigation session.
#[derive(Debug)]
pub struct Client {
    pub current_url: Location,
    pub redirects: usize,
    pub max_redirects: usize,
    pub history: Vec<Location>,
    pub last_working_url: Option<Location>,
    pub pager: Pager,
}

/// The mathematical value of a [`Client`].
#[verifier::ext_equal]
pub struct ClientV {
    pub current_url: LocView,
    pub redirects: int,
    pub max_redirects: int,
    pub history: Seq<LocView>,
    pub last_working_url: Option<LocView>,
    pub pager: Pager,
}

impl View for Client {
    type V = ClientV;

    open spec fn view(&self) -> ClientV {
        ClientV {
            current_url: self.current_url@,
            redirects: self.redirects as int,
            max_redirects: self.max_redirects as int,
            history: self.history@.map_values(|l: Location| l@),
            last_working_url: opt_loc_view(self.last_working_url),
            pager: self.pager,
        }
    }
}

/// A well-formed session: the redirect counter never passes its bound.
/// Constructors establish this and every step preserves it.
pub open spec fn session_wf(c: ClientV) -> bool {
    0 <= c.redirects <= c.max_redirects
}

/// The redirect bound a fresh session is configured with.
pub open spec fn default_max_redirects() -> int {
    5
}

impl Client {
    /// A fresh session at `url`: empty history, counter at zero, the
    /// default redirect bound, no last known good location.
    pub fn new(url: &Location, pager: Pager) -> (c: Client)
        ensures
            c@ == (ClientV {
                current_url: url@,
                redirects: 0,
                max_redirects: default_max_redirects(),
                history: Seq::<LocView>::empty(),
                last_working_url: None,
                pager,
            }),
            session_wf(c@),
    {
        let c = Client {
            current_url: url.clone(),
            redirects: 0,
            max_redirects: 5,
            history: Vec::new(),
            last_working_url: None,
            pager,
        };
        proof {
            assert(c@.history =~= Seq::<LocView>::empty());
            assert(c@ =~= (ClientV {
                current_url: url@,
                redirects: 0,
                max_redirects: default_max_redirects(),
                history: Seq::<LocView>::empty(),
                last_working_url: None,
                pager,
            }));
        }
        c
    }

    /// Starts a navigation step to `url`: appends it to the history and
    /// makes it current. The driving loop then fetches a document for it.
    pub fn begin_request(&mut self, url: Location)
        ensures
            final(self)@ == (ClientV {
                current_url: url@,
                history: old(self)@.history.push(url@),
                ..old(self)@
            }),
    {
        let stored = url.clone();
        self.history.push(stored);
        self.current_url = url;
        proof {
            assert(final(self)@.history =~= old(self)@.history.push(final(self)@.current_url));
            assert(final(self)@ =~= (ClientV {
                current_url: final(self)@.current_url,
                history: old(self)@.history.push(final(self)@.current_url),
                ..old(self)@
            }));
        }
    }

    /// The most recent history entry, if any.
    pub fn previous_url(&self) -> (r: Option<&Location>)
        ensures
            match r {
                Some(l) => self@.history.len() > 0 && l@ == self@.history.last(),
                None => self@.history.len() == 0,
            },
    {
        if self.history.len() == 0 {
            None
        } else {
            Some(&self.history[self.history.len() - 1])
        }
    }

    /// The history entry before the most recent one, if any.
    pub fn actual_previous_url(&self) -> (r: Option<&Location>)
        ensures
            match r {
                Some(l) => self@.history.len() >= 2 && l@ == self@.history[self@.history.len()
                    - 2],
                None => self@.history.len() < 2,
            },
    {
        if self.history.len() >= 2 {
            Some(&self.history[self.history.len() - 2])
        } else {
            None
        }
    }

    /// Records a successful fetch of `url`: it becomes the last known good
    /// location and the redirect counter returns to zero.
    pub fn record_success(&mut self, url: &Location)
        ensures
            final(self)@ == (ClientV {
                last_working_url: Some(url@),
                redirects: 0,
                ..old(self)@
            }),
            session_wf(old(self)@) ==> session_wf(final(self)@),
    {
        self.last_working_url = Some(url.clone());
        self.redirects = 0;
        proof {
            assert(final(self)@ =~= (ClientV {
                last_working_url: Some(url@),
                redirects: 0,
                ..old(self)@
            }));
        }
    }
}

/// The protocol's own scheme.
pub open spec fn gemini_scheme() -> Seq<char> {
    seq!['g', 'e', 'm', 'i', 'n', 'i']
}

/// What a raw link string resolves to against a current location and a
/// history.
///
/// An absolute URL of the protocol's scheme navigates there — unless it is
/// the current location itself, which resolves to the history entry before
/// the current one, or fails when there is none. An absolute URL of
/// another scheme is handed out unchanged for an outside opener. Anything
/// else is relative: a network-path reference (leading `//`) is parsed
/// behind the current scheme; an absolute path (leading `/`) is joined
/// against the current location; any other reference is joined as
/// `./reference`, keeping the current directory context.
pub open spec fn resolve_spec(cur: LocView, hist: Seq<LocView>, raw: Seq<char>) -> Result<
    ResolvedV,
    LinkError,
> {
    match url_parts(raw) {
        Some(v) => {
            if v.scheme == gemini_scheme() {
                if v == cur {
                    if hist.len() >= 2 {
                        Ok(ResolvedV::Navigate(hist[hist.len() - 2]))
                    } else {
                        Err(LinkError::NoPreviousLocation)
                    }
                } else {
                    Ok(ResolvedV::Navigate(v))
                }
            } else {
                Ok(ResolvedV::External(raw))
            }
        },
        None => {
            if starts_with(raw, seq!['/', '/']) {
                match url_parts(cur.scheme + seq![':'] + raw) {
                    Some(v) => Ok(ResolvedV::Navigate(v)),
                    None => Err(LinkError::RelativeResolutionError),
                }
            } else {
                match url_joined(
                    loc_str(cur),
                    if starts_with(raw, seq!['/']) {
                        raw
                    } else {
                        seq!['.', '/'] + raw
                    },
                ) {
                    Some(v) => Ok(ResolvedV::Navigate(v)),
                    None => Err(LinkError::RelativeResolutionError),
                }
            }
        },
    }
}

impl Client {
    /// Resolves a raw link string against the session, per
    /// [`resolve_spec`] on the current location and history.
    pub fn click_link(&self, link: &str) -> (r: Result<ResolvedTarget, LinkError>)
        ensures
            match r {
                Ok(t) => resolve_spec(self@.current_url, self@.history, link@) == Ok::<
                    ResolvedV,
                    LinkError,
                >(t@),
                Err(e) => resolve_spec(self@.current_url, self@.history, link@) == Err::<
                    ResolvedV,
                    LinkError,
                >(e),
            },
    {
        proof {
            reveal_strlit("gemini");
            reveal_strlit("//");
            reveal_strlit("/");
            reveal_strlit("./");
            reveal_strlit(":");
            assert("gemini"@ =~= gemini_scheme());
            assert("//"@ =~= seq!['/', '/']);
            assert("/"@ =~= seq!['/']);
            assert("./"@ =~= seq!['.', '/']);
            assert(":"@ =~= seq![':']);
        }
        match parse_absolute(link) {
            Some(loc) => {
                if str_eq(loc.scheme.as_str(), "gemini") {
                    if loc_eq(&loc, &self.current_url) {
                        match self.actual_previous_url() {
                            Some(p) => Ok(ResolvedTarget::Navigate(p.clone())),
                            None => Err(LinkError::NoPreviousLocation),
                        }
                    } else {
                        Ok(ResolvedTarget::Navigate(loc))
                    }
                } else {
                    Ok(ResolvedTarget::External(link.to_owned()))
                }
            },
            None => {
                if starts_with_str(link, "//") {
                    let mut s = String::new();
                    s.append(self.current_url.scheme.as_str());
                    s.append(":");
                    s.append(link);
                    proof {
                        assert(s@ =~= self@.current_url.scheme + seq![':'] + link@);
                    }
                    match parse_absolute(s.as_str()) {
                        Some(l) => Ok(ResolvedTarget::Navigate(l)),
                        None => Err(LinkError::RelativeResolutionError),
                    }
                } else {
                    let base = self.current_url.to_url_string();
                    let rel: String = if starts_with_str(link, "/") {
                        link.to_owned()
                    } else {
                        let mut t = String::new();
                        t.append("./");
                        t.append(link);
                        t
                    };
                    match join_with_base(base.as_str(), rel.as_str()) {
                        Some(l) => Ok(ResolvedTarget::Navigate(l)),
                        None => Err(LinkError::RelativeResolutionError),
                    }
                }
            },
        }
    }
}

/// One redirect step: the counter rises by one, saturating at the bound;
/// at the bound the step falls back to the last known good location, and
/// below it the redirect target — the response's meta string — is resolved
/// as a link against the session.
pub open spec fn redirect_step(c: ClientV, meta: Seq<char>) -> (ClientV, OutcomeV) {
    let c2 = ClientV {
        redirects: if c.redirects < c.max_redirects {
            c.redirects + 1
        } else {
            c.redirects
        },
        ..c
    };
    if c2.redirects >= c.max_redirects {
        (c2, OutcomeV::Fallback(c.last_working_url))
    } else {
        match resolve_spec(c.current_url, c.history, meta) {
            Ok(ResolvedV::Navigate(v)) => (c2, OutcomeV::Goto(v)),
            Ok(ResolvedV::External(s)) => (c2, OutcomeV::OpenExternal(s)),
            Err(e) => (c2, OutcomeV::BadRedirect(e)),
        }
    }
}

impl Client {
    /// Follows one redirect whose target is `meta`, per [`redirect_step`].
    pub fn follow_redirect(&mut self, meta: &str) -> (r: Outcome)
        requires
            session_wf(old(self)@),
        ensures
            final(self)@ == redirect_step(old(self)@, meta@).0,
            r@ == redirect_step(old(self)@, meta@).1,
            session_wf(final(self)@),
    {
        if self.redirects < self.max_redirects {
            self.redirects = self.redirects + 1;
        }
        proof {
            assert(final(self)@ =~= redirect_step(old(self)@, meta@).0);
        }
        if self.redirects >= self.max_redirects {
            let fb = match &self.last_working_url {
                Some(l) => Some(l.clone()),
                None => None,
            };
            Outcome::Fallback(fb)
        } else {
            match self.click_link(meta) {
                Ok(ResolvedTarget::Navigate(l)) => Outcome::Goto(l),
                Ok(ResolvedTarget::External(s)) => Outcome::OpenExternal(s),
                Err(e) => Outcome::BadRedirect(e),
            }
        }
    }
}

/// One routing step on a fetched document: what the session does with a
/// response for `url`, by the class of its status code.
///
/// Input asks the driving loop for a reply — visible exactly for the one
/// code that asks so; success records `url` as last known good and resets
/// the redirect counter; a redirect runs [`redirect_step`] on the meta
/// string; the failure classes and an unknown code change nothing and end
/// the session.
pub open spec fn step_spec(c: ClientV, resp: ResponseV, url: LocView) -> (ClientV, OutcomeV) {
    match classify(resp.status_code_num) {
        StatusCode::Input => (c, OutcomeV::PromptInput { secret: resp.status_code_num != 10 }),
        StatusCode::Success => (
            ClientV { last_working_url: Some(url), redirects: 0, ..c },
            OutcomeV::ShowPage,
        ),
        StatusCode::Redirect => redirect_step(c, resp.meta_description),
        StatusCode::TemporaryFailure => (c, OutcomeV::Failed),
        StatusCode::PermanentFailure => (c, OutcomeV::Failed),
        StatusCode::ClientCertificateRequired => (c, OutcomeV::Failed),
        StatusCode::Unknown(code) => (c, OutcomeV::InvalidCode(code)),
    }
}

impl Client {
    /// Routes one fetched document, per [`step_spec`].
    pub fn handle_response(&mut self, response: &Response, url: &Location) -> (r: Outcome)
        requires
            session_wf(old(self)@),
        ensures
            final(self)@ == step_spec(old(self)@, response@, url@).0,
            r@ == step_spec(old(self)@, response@, url@).1,
            session_wf(final(self)@),
    {
        match StatusCode::from(response.status_code_num) {
            StatusCode::Input => Outcome::PromptInput { secret: response.status_code_num != 10 },
            StatusCode::Success => {
                self.record_success(url);
                Outcome::ShowPage
            },
            StatusCode::Redirect => self.follow_redirect(response.meta_description.as_str()),
            StatusCode::TemporaryFailure => Outcome::Failed,
            StatusCode::PermanentFailure => Outcome::Failed,
            StatusCode::ClientCertificateRequired => Outcome::Failed,
            StatusCode::Unknown(code) => Outcome::InvalidCode(code),
        }
    }

    /// The location an input reply re-navigates to: the most recent history
    /// entry with its query set to the reply — absent history means there
    /// is nowhere to return to.
    pub fn input_target(&self, reply: Option<String>) -> (r: Option<Location>)
        ensures
            match r {
                Some(l) => self@.history.len() > 0 && l@ == (LocView {
                    query: match reply {
                        Some(q) => Some(q@),
                        None => None,
                    },
                    ..self@.history.last()
                }),
                None => self@.history.len() == 0,
            },
    {
        match self.previous_url() {
            Some(p) => Some(p.with_query(reply)),
            None => None,
        }
    }
}

/// What a prompt command asks for.
#[derive(Debug)]
pub enum PromptAction {
    /// End the session at the user's request.
    Quit,
    /// Navigate to this location.
    Goto(Location),
    /// Hand this reference to an outside opener; no navigation.
    OpenExternal(String),
    /// Open the current location in an editor and re-navigate through the
    /// edited text.
    Edit,
    /// Back or reload was asked with too little history: report it, keep
    /// the current location, and prompt again.
    NoHistory,
    /// The input named no link, no command and no URL: prompt again.
    Invalid,
}

/// The mathematical value of a [`PromptAction`].
pub enum PromptActionV {
    Quit,
    Goto(LocView),
    OpenExternal(Seq<char>),
    Edit,
    NoHistory,
    Invalid,
}

impl View for PromptAction {
    type V = PromptActionV;

    open spec fn view(&self) -> PromptActionV {
        match self {
            PromptAction::Quit => PromptActionV::Quit,
            PromptAction::Goto(l) => PromptActionV::Goto(l@),
            PromptAction::OpenExternal(s) => PromptActionV::OpenExternal(s@),
            PromptAction::Edit => PromptActionV::Edit,
            PromptAction::NoHistory => PromptActionV::NoHistory,
            PromptAction::Invalid => PromptActionV::Invalid,
        }
    }
}

/// The fallback for an input that selects no link: a full URL navigates
/// there, anything else is invalid.
pub open spec fn command_url_case(input: Seq<char>) -> PromptActionV {
    match url_parts(input) {
        Some(v) => PromptActionV::Goto(v),
        None => PromptActionV::Invalid,
    }
}

/// What a line typed at the page prompt asks for.
///
/// `q` quits; `b` goes to the entry before the current one and `r` to the
/// current one, each reporting insufficient history instead of navigating;
/// `e` opens the editor. A decimal number selecting one of the page's
/// links resolves that link's target as a click; any other input — and a
/// selection that cannot be resolved — is taken as a URL when it parses as
/// one, and is otherwise invalid.
pub open spec fn command_spec(
    cur: LocView,
    hist: Seq<LocView>,
    links: Seq<LinkV>,
    input: Seq<char>,
) -> PromptActionV {
    if input == seq!['q'] {
        PromptActionV::Quit
    } else if input == seq!['b'] {
        if hist.len() >= 2 {
            PromptActionV::Goto(hist[hist.len() - 2])
        } else {
            PromptActionV::NoHistory
        }
    } else if input == seq!['r'] {
        if hist.len() >= 1 {
            PromptActionV::Goto(hist.last())
        } else {
            PromptActionV::NoHistory
        }
    } else if input == seq!['e'] {
        PromptActionV::Edit
    } else {
        match spec_parse_dec(input) {
            Some(n) => if n < links.len() {
                match resolve_spec(cur, hist, links[n as int].href) {
                    Ok(ResolvedV::Navigate(v)) => PromptActionV::Goto(v),
                    Ok(ResolvedV::External(s)) => PromptActionV::OpenExternal(s),
                    Err(_) => command_url_case(input),
                }
            } else {
                command_url_case(input)
            },
            None => command_url_case(input),
        }
    }
}

impl Client {
    /// Interprets one line typed at the page prompt, per [`command_spec`]
    /// on the session and the displayed response's links.
    pub fn interpret_command(&self, response: &Response, input: &str) -> (r: PromptAction)
        ensures
            r@ == command_spec(self@.current_url, self@.history, response@.links, input@),
    {
        proof {
            reveal_strlit("q");
            reveal_strlit("b");
            reveal_strlit("r");
            reveal_strlit("e");
            assert("q"@ =~= seq!['q']);
            assert("b"@ =~= seq!['b']);
            assert("r"@ =~= seq!['r']);
            assert("e"@ =~= seq!['e']);
        }
        if str_eq(input, "q") {
            return PromptAction::Quit;
        }
        if str_eq(input, "b") {
            return match self.actual_previous_url() {
                Some(l) => PromptAction::Goto(l.clone()),
                None => PromptAction::NoHistory,
            };
        }
        if str_eq(input, "r") {
            return match self.previous_url() {
                Some(l) => PromptAction::Goto(l.clone()),
                None => PromptAction::NoHistory,
            };
        }
        if str_eq(input, "e") {
            return PromptAction::Edit;
        }
        if response.links.len() > 0 {
            match parse_dec_bounded(input, response.links.len() - 1) {
                Some(idx) => {
                    proof {
                        assert(response@.links[idx as int].href == response.links@[idx as int]@.href);
                    }
                    match self.click_link(response.links[idx].href.as_str()) {
                        Ok(ResolvedTarget::Navigate(l)) => {
                            return PromptAction::Goto(l);
                        },
                        Ok(ResolvedTarget::External(s)) => {
                            return PromptAction::OpenExternal(s);
                        },
                        Err(_) => {},
                    }
                },
                None => {},
            }
        }
        match parse_absolute(input) {
            Some(l) => PromptAction::Goto(l),
            None => PromptAction::Invalid,
        }
    }
}

/// At the bound, a redirect step falls back instead of fetching further:
/// when a step starts with its counter one short of the bound or past it,
/// the outcome is the last known good location (or termination when none
/// exists); below that, the counter rises by exactly one and the step
/// never falls back.
pub proof fn lemma_redirect_guard(c: ClientV, meta: Seq<char>)
    requires
        session_wf(c),
    ensures
        c.redirects + 1 >= c.max_redirects ==> redirect_step(c, meta).1 == OutcomeV::Fallback(
            c.last_working_url,
        ),
        c.redirects + 1 < c.max_redirects ==> {
            &&& redirect_step(c, meta).0.redirects == c.redirects + 1
            &&& !(redirect_step(c, meta).1 is Fallback)
        },
        session_wf(redirect_step(c, meta).0),
{
}

/// A chain of redirect steps none of which falls back is shorter than the
/// session's redirect bound: each such step raises the counter by exactly
/// one, so from a fresh counter the chain is cut off — by falling back to
/// the last known good location — after at most `max_redirects` steps.
pub proof fn lemma_redirect_chain(states: Seq<ClientV>, metas: Seq<Seq<char>>)
    requires
        states.len() == metas.len() + 1,
        forall|i: int| 0 <= i < states.len() ==> session_wf(#[trigger] states[i]),
        forall|i: int|
            0 <= i < metas.len() ==> {
                &&& states[i + 1] == redirect_step(#[trigger] states[i], metas[i]).0
                &&& !(redirect_step(states[i], metas[i]).1 is Fallback)
            },
    ensures
        forall|i: int|
            0 <= i < states.len() ==> #[trigger] states[i].redirects == states[0].redirects + i,
        forall|i: int|
            0 <= i < states.len() ==> #[trigger] states[i].max_redirects
                == states[0].max_redirects,
        metas.len() > 0 ==> states[0].redirects + metas.len() < states[0].max_redirects,
    decreases metas.len(),
{
    if metas.len() == 0 {
    } else {
        let head_states = states.drop_last();
        let head_metas = metas.drop_last();
        assert forall|i: int| 0 <= i < head_states.len() implies session_wf(
            #[trigger] head_states[i],
        ) by {
            assert(head_states[i] == states[i]);
        }
        assert forall|i: int|
            0 <= i < head_metas.len() implies {
            &&& head_states[i + 1] == redirect_step(#[trigger] head_states[i], head_metas[i]).0
            &&& !(redirect_step(head_states[i], head_metas[i]).1 is Fallback)
        } by {
            assert(head_states[i] == states[i]);
            assert(head_states[i + 1] == states[i + 1]);
            assert(head_metas[i] == metas[i]);
            assert(states[i + 1] == redirect_step(states[i], metas[i]).0);
        }
        lemma_redirect_chain(head_states, head_metas);
        let k = metas.len() - 1;
        assert(states[k + 1] == redirect_step(states[k], metas[k]).0);
        lemma_redirect_guard(states[k], metas[k]);
        assert(head_states[0] == states[0]);
        assert(head_states[k] == states[k]);
        assert(states[k].redirects == states[0].redirects + k);
        assert(states[k].max_redirects == states[0].max_redirects);
        assert forall|i: int|
            0 <= i < states.len() implies #[trigger] states[i].redirects == states[0].redirects + i
            && #[trigger] states[i].max_redirects == states[0].max_redirects by {
            if i < states.len() - 1 {
                assert(head_states[i] == states[i]);
            }
        }
    }
}

/// A link naming the current location resolves to the history entry before
/// the current one, and to an error when the history holds no such entry.
pub proof fn lemma_self_link(cur: LocView, hist: Seq<LocView>, raw: Seq<char>)
    requires
        url_parts(raw) == Some(cur),
        cur.scheme == gemini_scheme(),
    ensures
        hist.len() >= 2 ==> resolve_spec(cur, hist, raw) == Ok::<ResolvedV, LinkError>(
            ResolvedV::Navigate(hist[hist.len() - 2]),
        ),
        hist.len() < 2 ==> resolve_spec(cur, hist, raw) == Err::<ResolvedV, LinkError>(
            LinkError::NoPreviousLocation,
        ),
{
}

} // verus!
