//! The login from a terminal: a browser is sent to the issuer, the redirect comes back to a listener
//! on this machine, the code is exchanged for tokens, the identity token is checked, and the
//! credentials are stored.
//!
//! The login is a state machine. It decides what comes next and what is printed; whoever runs it binds
//! the listener, opens the browser, fetches, sends, and writes.

use vstd::prelude::*;
use vstd::slice::slice_to_vec;

use crate::clock::{Moment, Timestamp};
use crate::credentials::{CredentialsView, StoredCredentials};
use crate::json::{json_parse, parse_json, tree_get};
use crate::jwt::{names_one_of, token_payload};
use crate::link::{fits_url, parse_link, url_parse, url_with_pairs, Link, LinkView};
use crate::oidc::{
    exchange_fields, id_token_claims, issuer_name, law_exchanges,
    law_verified_tokens_are_held_to_all, request_pairs, signed_by_issuer, verify_message,
    verify_step, well_known, well_known_url, ClientView, DiscoveryDoc, IdTokenClaims, KeyEvent,
    KeyStage, OidcClient, PkcePair, TokenResponse, VerifyAction, VerifyError,
};
use crate::text::{joined, same};

verus! {

/// Where the listener for the redirect is bound: on this machine, at a port of the system's choice.
pub const LISTEN_ADDR: &'static str = "127.0.0.1:0";

/// The seconds for which the redirect is awaited.
pub const CALLBACK_TIMEOUT_SECS: u64 = 300;

/// What the issuer hands back through the browser.
#[derive(Debug)]
pub struct CallbackParams {
    pub code: Option<String>,
    /// Empty where the issuer hands none back.
    pub state: String,
    pub error: Option<String>,
}

/// The value of the given name in a query: of several, the last.
pub open spec fn query_value(query: Seq<(Seq<char>, Seq<char>)>, name: Seq<char>) -> Option<
    Seq<char>,
>
    decreases query.len(),
{
    if query.len() == 0 {
        None
    } else if query.last().0 == name {
        Some(query.last().1)
    } else {
        query_value(query.drop_last(), name)
    }
}

/// The value of the given name in a query.
fn find_value(query: &Vec<(String, String)>, name: &str) -> (r: Option<String>)
    ensures
        r.deep_view() == query_value(query.deep_view(), name@),
{
    let ghost all = query.deep_view();
    let mut i: usize = query.len();
    assert(all.take(i as int) =~= all);
    while i > 0
        invariant
            all == query.deep_view(),
            i <= query@.len(),
            query_value(all, name@) == query_value(all.take(i as int), name@),
        decreases i,
    {
        assert(all.take(i as int).drop_last() =~= all.take(i - 1));
        assert(all.take(i as int).last() == (query@[i - 1].0@, query@[i - 1].1@));
        i -= 1;
        if same(query[i].0.as_str(), name) {
            return Some(query[i].1.clone());
        }
    }
    None
}

/// What a query hands back.
pub fn callback_params(query: &Vec<(String, String)>) -> (r: CallbackParams)
    ensures
        r.code.deep_view() == query_value(query.deep_view(), "code"@),
        r.state@ == match query_value(query.deep_view(), "state"@) {
            Some(s) => s,
            None => Seq::empty(),
        },
        r.error.deep_view() == query_value(query.deep_view(), "error"@),
        hands_back(query.deep_view(), r),
{
    CallbackParams {
        code: find_value(query, "code"),
        state: match find_value(query, "state") {
            Some(s) => s,
            None => String::new(),
        },
        error: find_value(query, "error"),
    }
}

/// Takes what is handed back once.
pub struct CallbackSlot {
    pub open: bool,
}

impl CallbackSlot {
    /// A slot that has taken nothing yet.
    pub fn new() -> (r: Self)
        ensures
            r.open,
    {
        CallbackSlot { open: true }
    }

    /// Whether the slot takes what was handed back: the first time only.
    pub fn offer(&mut self, params: CallbackParams) -> (r: Option<CallbackParams>)
        ensures
            r == (if old(self).open {
                Some(params)
            } else {
                None
            }),
            r == slot_takes(old(self).open, params),
            !final(self).open,
    {
        let taken = self.open;
        self.open = false;
        if taken {
            Some(params)
        } else {
            None
        }
    }
}

/// What the tool shows of a license.
#[derive(Debug)]
pub struct LicensePreview {
    pub plan: String,
    pub tenant_slug: String,
}

/// A line for the terminal.
#[derive(Debug)]
pub enum Line {
    /// On the standard output.
    Out(String),
    /// On the standard error.
    Note(String),
}

/// A `Line`, with text as character sequences.
pub enum LineView {
    Out(Seq<char>),
    Note(Seq<char>),
}

impl View for Line {
    type V = LineView;

    open spec fn view(&self) -> LineView {
        match *self {
            Line::Out(s) => LineView::Out(s@),
            Line::Note(s) => LineView::Note(s@),
        }
    }
}

/// Lines, with text as character sequences.
pub open spec fn lines_view(lines: Seq<Line>) -> Seq<LineView> {
    lines.map_values(|l: Line| l@)
}

/// What a login is set up with once its issuer is known to be a URL.
pub struct Setup {
    pub issuer: String,
    pub client_id: String,
    pub no_browser: bool,
}

/// What a login holds once the browser is sent off.
pub struct Session {
    pub client: OidcClient,
    pub doc: DiscoveryDoc,
    pub pkce: PkcePair,
    pub state: String,
}

/// How far a login is.
pub enum Login {
    Start { issuer_url: String, client_id: String, no_browser: bool, program: String },
    /// The listener is being bound.
    Binding(Setup),
    /// What the issuer publishes of itself is being fetched.
    Discovering { client: OidcClient, pkce: PkcePair, state: String, no_browser: bool },
    /// The browser is being opened.
    Opening { session: Session, url: String },
    /// The redirect is awaited.
    Waiting(Session),
    /// The code was sent.
    Exchanging(Session),
    /// The identity token is being checked.
    Verifying { session: Session, tokens: TokenResponse, stage: KeyStage },
    /// The claims of the identity token, which passed, are being read.
    ReadingClaims { session: Session, tokens: TokenResponse, payload: Vec<u8> },
    /// The license is being checked.
    Licensing {
        session: Session,
        tokens: TokenResponse,
        email: Option<String>,
        license: String,
        stage: KeyStage,
    },
    /// The claims of the license, which passed, are being read.
    ReadingLicense { session: Session, tokens: TokenResponse, email: Option<String> },
    /// The credentials are being written.
    Saving,
    /// The login is over.
    Ended,
}

/// What happened in a login.
pub enum LoginEvent {
    Begin,
    /// The listener is bound; a verifier and a state were made.
    Bound { addr: String, pkce: PkcePair, state: String },
    Discovered(DiscoveryDoc),
    BrowserOpened,
    BrowserFailed(String),
    Callback(CallbackParams),
    /// The token endpoint answered.
    Exchanged(TokenResponse),
    /// The token endpoint refused.
    Refused(String),
    /// Something happened in the search for a key.
    Key(KeyEvent),
    /// The claims of the identity token were read.
    Claims(IdTokenClaims),
    /// The claims of the license were read.
    License(LicensePreview),
    /// The credentials were written to the given file.
    Saved(String),
    /// What was to be done failed.
    Failed(String),
}

/// What to do next in a login.
pub enum LoginAction {
    /// Bind a listener, and make a verifier and a state.
    Bind,
    /// Fetch what the issuer publishes of itself.
    Discover(String),
    OpenBrowser(String),
    AwaitCallback,
    /// Send the form to the token endpoint.
    Exchange { endpoint: String, form: Vec<(String, String)> },
    /// Fetch what the issuer publishes of itself, in the search for a key.
    FetchDiscovery(String),
    /// Fetch the keys of the issuer.
    FetchJwks(String),
    /// Read the claims of the identity token from their JSON document.
    ReadClaims(Vec<u8>),
    /// Read the claims of the license from their JSON document.
    ReadLicense(Vec<u8>),
    /// Write the credentials.
    Save(StoredCredentials),
    Done,
    Fail(LoginError),
}

/// Why a login failed.
#[derive(Debug)]
pub enum LoginError {
    /// The issuer is not a URL.
    Issuer(String),
    /// The authorization endpoint is not a URL.
    AuthorizeUrl(String),
    /// The URL for the browser would be longer than a URL can be.
    UrlTooLong,
    /// The state that came back is not the one that was sent.
    StateMismatch,
    /// No code came back.
    MissingCode,
    /// The token endpoint refused.
    TokenEndpoint(String),
    /// The identity token is not taken.
    IdToken(VerifyError),
    /// The identity token could not be checked.
    IdTokenCheck(String),
    /// Something else failed.
    Outside(String),
    /// The event does not belong here.
    OutOfTurn,
}

/// The text of an error.
pub open spec fn login_message(e: LoginError) -> Seq<char> {
    match e {
        LoginError::Issuer(e) => e@,
        LoginError::AuthorizeUrl(e) => e@,
        LoginError::UrlTooLong => "authorize URL too long"@,
        LoginError::StateMismatch => "OIDC state mismatch — possible CSRF, bailing"@,
        LoginError::MissingCode => "no code in callback"@,
        LoginError::TokenEndpoint(body) => "token endpoint: "@ + body@,
        LoginError::IdToken(e) => "verify id_token: "@ + verify_message(e@),
        LoginError::IdTokenCheck(e) => "verify id_token: "@ + e@,
        LoginError::Outside(e) => e@,
        LoginError::OutOfTurn => "event out of turn"@,
    }
}

impl LoginError {
    /// The text of the error.
    pub fn message(&self) -> (r: String)
        ensures
            r@ == login_message(*self),
    {
        match self {
            LoginError::Issuer(e) => e.clone(),
            LoginError::AuthorizeUrl(e) => e.clone(),
            LoginError::UrlTooLong => "authorize URL too long".to_owned(),
            LoginError::StateMismatch => "OIDC state mismatch — possible CSRF, bailing".to_owned(),
            LoginError::MissingCode => "no code in callback".to_owned(),
            LoginError::TokenEndpoint(body) => "token endpoint: ".to_owned().concat(body.as_str()),
            LoginError::IdToken(e) => e.id_token_message(),
            LoginError::IdTokenCheck(e) => "verify id_token: ".to_owned().concat(e.as_str()),
            LoginError::Outside(e) => e.clone(),
            LoginError::OutOfTurn => "event out of turn".to_owned(),
        }
    }
}

/// One step of a login: where it leads, what is printed, and what to do next.
pub struct LoginStep {
    pub next: Login,
    pub lines: Vec<Line>,
    pub action: LoginAction,
}

impl LoginStep {
    /// Whether the step ends the login with an error.
    pub open spec fn fails(self, e: LoginError) -> bool {
        &&& self.next is Ended
        &&& self.lines@.len() == 0
        &&& self.action == LoginAction::Fail(e)
    }

    /// Whether the step prints nothing.
    pub open spec fn quiet(self) -> bool {
        self.lines@.len() == 0
    }
}

/// A step that ends the login with an error.
fn fail(e: LoginError) -> (r: LoginStep)
    ensures
        r.fails(e),
{
    LoginStep { next: Login::Ended, lines: Vec::new(), action: LoginAction::Fail(e) }
}

/// A step that prints nothing.
fn quiet(next: Login, action: LoginAction) -> (r: LoginStep)
    ensures
        r.next == next,
        r.action == action,
        r.quiet(),
{
    LoginStep { next, lines: Vec::new(), action }
}

/// How a login starts: its issuer is a URL, and what it is about to do is printed.
pub open spec fn started(
    link: Result<LinkView, Seq<char>>,
    client_id: Seq<char>,
    no_browser: bool,
    program: Seq<char>,
    r: LoginStep,
) -> bool {
    match link {
        Err(e) => r.action matches LoginAction::Fail(LoginError::Issuer(x)) && x@ == e
            && r.next is Ended && r.quiet(),
        Ok(link) => {
            &&& r.next matches Login::Binding(setup) && setup.issuer@ == link.text
                && setup.client_id@ == client_id && setup.no_browser == no_browser
            &&& lines_view(r.lines@) == seq![
                LineView::Out(program + " login"@),
                LineView::Out("  issuer:    "@ + link.text),
                LineView::Out("  client_id: "@ + client_id),
            ]
            &&& r.action is Bind
        },
    }
}

/// Starts a login, given what its issuer is as a URL.
pub fn start(
    link: Result<Link, String>,
    client_id: String,
    no_browser: bool,
    program: &str,
) -> (r: LoginStep)
    ensures
        started(
            match link {
                Ok(l) => Ok(l@),
                Err(e) => Err(e@),
            },
            client_id@,
            no_browser,
            program@,
            r,
        ),
{
    match link {
        Err(e) => fail(LoginError::Issuer(e)),
        Ok(link) => {
            let lines = vec![
                Line::Out(program.to_owned().concat(" login")),
                Line::Out("  issuer:    ".to_owned().concat(link.text.as_str())),
                Line::Out("  client_id: ".to_owned().concat(client_id.as_str())),
            ];
            assert(lines_view(lines@) =~= seq![
                LineView::Out(program@ + " login"@),
                LineView::Out("  issuer:    "@ + link@.text),
                LineView::Out("  client_id: "@ + client_id@),
            ]);
            LoginStep {
                next: Login::Binding(Setup { issuer: link.text, client_id, no_browser }),
                lines,
                action: LoginAction::Bind,
            }
        },
    }
}

/// Where the issuer redirects the browser to, given where the listener is.
pub open spec fn redirect_uri(addr: Seq<char>) -> Seq<char> {
    "http://"@ + addr + "/callback"@
}

/// How a login goes on when the listener is bound.
pub open spec fn bound(
    setup: Setup,
    addr: Seq<char>,
    pkce: PkcePair,
    state: String,
    r: LoginStep,
) -> bool {
    &&& r.next matches Login::Discovering { client, pkce: p, state: s, no_browser } && {
        &&& client@ == (ClientView {
            issuer: setup.issuer@,
            client_id: setup.client_id@,
            client_secret: None,
            redirect_uri: redirect_uri(addr),
            discovery: None,
            jwks: None,
            refetched_at: None,
        })
        &&& p == pkce
        &&& s == state
        &&& no_browser == setup.no_browser
    }
    &&& r.quiet()
    &&& r.action matches LoginAction::Discover(url) && url@ == well_known(setup.issuer@)
}

/// Goes on when the listener is bound.
fn on_bound(setup: Setup, addr: &str, pkce: PkcePair, state: String) -> (r: LoginStep)
    ensures
        bound(setup, addr@, pkce, state, r),
{
    let redirect = "http://".to_owned().concat(addr).concat("/callback");
    let url = well_known_url(setup.issuer.as_str());
    let client = OidcClient::new(setup.issuer, setup.client_id, None, redirect);
    quiet(
        Login::Discovering { client, pkce, state, no_browser: setup.no_browser },
        LoginAction::Discover(url),
    )
}

/// What a login asks for.
pub open spec fn login_scopes() -> Seq<Seq<char>> {
    seq!["openid"@, "email"@, "profile"@]
}

/// Whether a session begins with what a login has when the issuer is known.
pub open spec fn begins(
    session: Session,
    client: OidcClient,
    pkce: PkcePair,
    state: String,
    doc: DiscoveryDoc,
) -> bool {
    &&& session.client@ == (ClientView { discovery: Some(doc), ..client@ })
    &&& session.doc == doc
    &&& session.pkce == pkce
    &&& session.state == state
}

/// How a login goes on when the issuer is known: the browser is sent to it, or the user is told to.
pub open spec fn discovered(
    client: OidcClient,
    pkce: PkcePair,
    state: String,
    no_browser: bool,
    doc: DiscoveryDoc,
    r: LoginStep,
) -> bool {
    let pairs = client.authorization(pkce, state@, login_scopes());
    match url_parse(doc.authorization_endpoint@) {
        Err(e) => r.action matches LoginAction::Fail(LoginError::AuthorizeUrl(x)) && x@ == e
            && r.next is Ended && r.quiet(),
        Ok(_) => if !fits_url(doc.authorization_endpoint@, pairs) {
            r.fails(LoginError::UrlTooLong)
        } else {
            let url = url_with_pairs(doc.authorization_endpoint@, pairs);
            if no_browser {
                &&& r.next matches Login::Waiting(session) && begins(
                    session,
                    client,
                    pkce,
                    state,
                    doc,
                )
                &&& lines_view(r.lines@) == seq![
                    LineView::Out("\n  → Open this URL to sign in:\n    "@ + url + "\n"@),
                ]
                &&& r.action is AwaitCallback
            } else {
                &&& r.next matches Login::Opening { session, url: u } && u@ == url && begins(
                    session,
                    client,
                    pkce,
                    state,
                    doc,
                )
                &&& lines_view(r.lines@) == seq![LineView::Out("\n  → Opening browser…"@)]
                &&& r.action matches LoginAction::OpenBrowser(u) && u@ == url
            }
        },
    }
}

/// Goes on when the issuer is known.
fn on_discovered(
    client: OidcClient,
    pkce: PkcePair,
    state: String,
    no_browser: bool,
    doc: DiscoveryDoc,
) -> (r: LoginStep)
    ensures
        discovered(client, pkce, state, no_browser, doc, r),
{
    let scopes = ["openid", "email", "profile"];
    assert(scopes.deep_view() =~= login_scopes());
    let url = match client.try_authorize_url(&doc, &pkce, state.as_str(), &scopes) {
        Some(Ok(url)) => url,
        Some(Err(e)) => {
            return fail(LoginError::AuthorizeUrl(e));
        },
        None => {
            return fail(LoginError::UrlTooLong);
        },
    };
    let ghost before = client;
    let mut client = client;
    client.store_discovery(doc.clone());
    let session = Session { client, doc, pkce, state };
    assert(begins(session, before, pkce, state, doc));
    if no_browser {
        let lines = vec![
            Line::Out(
                "\n  → Open this URL to sign in:\n    ".to_owned().concat(url.as_str()).concat(
                    "\n",
                ),
            ),
        ];
        assert(lines_view(lines@) =~= seq![
            LineView::Out("\n  → Open this URL to sign in:\n    "@ + url@ + "\n"@),
        ]);
        LoginStep { next: Login::Waiting(session), lines, action: LoginAction::AwaitCallback }
    } else {
        let lines = vec![Line::Out("\n  → Opening browser…".to_owned())];
        assert(lines_view(lines@) =~= seq![LineView::Out("\n  → Opening browser…"@)]);
        let shown = url.clone();
        LoginStep {
            next: Login::Opening { session, url },
            lines,
            action: LoginAction::OpenBrowser(shown),
        }
    }
}

/// How a login goes on when no browser could be opened: the user is told to open one.
pub open spec fn browser_failed(session: Session, url: Seq<char>, e: Seq<char>, r: LoginStep) -> bool {
    &&& r.next == Login::Waiting(session)
    &&& lines_view(r.lines@) == seq![
        LineView::Note("  ! browser open failed: "@ + e),
        LineView::Out("    paste this URL manually:\n    "@ + url),
    ]
    &&& r.action is AwaitCallback
}

/// Goes on when no browser could be opened.
fn on_browser_failed(session: Session, url: &str, e: &str) -> (r: LoginStep)
    ensures
        browser_failed(session, url@, e@, r),
{
    let lines = vec![
        Line::Note("  ! browser open failed: ".to_owned().concat(e)),
        Line::Out("    paste this URL manually:\n    ".to_owned().concat(url)),
    ];
    assert(lines_view(lines@) =~= seq![
        LineView::Note("  ! browser open failed: "@ + e@),
        LineView::Out("    paste this URL manually:\n    "@ + url@),
    ]);
    LoginStep { next: Login::Waiting(session), lines, action: LoginAction::AwaitCallback }
}

/// How a login goes on when the redirect came back: the state must be the one that was sent, and a
/// code must be there, which is sent with the verifier.
pub open spec fn called_back(session: Session, params: CallbackParams, r: LoginStep) -> bool {
    if params.state@ != session.state@ {
        r.fails(LoginError::StateMismatch)
    } else {
        match params.code {
            None => r.fails(LoginError::MissingCode),
            Some(code) => {
                &&& r.next == Login::Exchanging(session)
                &&& r.quiet()
                &&& r.action matches LoginAction::Exchange { endpoint, form } && endpoint@
                    == session.doc.token_endpoint@ && form.deep_view() == exchange_fields(
                    code@,
                    session.client@.redirect_uri,
                    session.client@.client_id,
                    session.pkce.verifier@,
                    session.client@.client_secret,
                )
            },
        }
    }
}

/// Goes on when the redirect came back.
pub fn on_callback(session: Session, params: CallbackParams) -> (r: LoginStep)
    ensures
        called_back(session, params, r),
{
    if !same(params.state.as_str(), session.state.as_str()) {
        return fail(LoginError::StateMismatch);
    }
    match params.code {
        None => fail(LoginError::MissingCode),
        Some(code) => {
            let form = session.client.exchange_code(code.as_str(), session.pkce.verifier.as_str());
            let endpoint = session.doc.token_endpoint.clone();
            quiet(Login::Exchanging(session), LoginAction::Exchange { endpoint, form })
        },
    }
}

impl Session {
    /// The session with what its client has learned since.
    pub open spec fn with_client(self, client: OidcClient) -> Session {
        Session { client, ..self }
    }
}

/// Whether a client goes from `before` to `after`, to a stage and to an action, in one step of the
/// check of a token.
pub open spec fn token_step(
    before: OidcClient,
    token: Seq<char>,
    audience: Seq<Seq<char>>,
    validate_nbf: bool,
    stage: KeyStage,
    event: KeyEvent,
    now: Moment,
    after: OidcClient,
    next: KeyStage,
    action: VerifyAction,
) -> bool {
    verify_step(
        before@,
        token,
        audience,
        validate_nbf,
        stage,
        event,
        now,
        after@,
        next,
        action,
    )
}

/// How a login goes on while the identity token is checked.
pub open spec fn checking(
    session: Session,
    tokens: TokenResponse,
    stage: KeyStage,
    event: KeyEvent,
    now: Moment,
    r: LoginStep,
) -> bool {
    exists|client: OidcClient, next: KeyStage, action: VerifyAction|
        {
            &&& #[trigger] token_step(
                session.client,
                tokens.id_token@,
                seq![session.client@.client_id],
                false,
                stage,
                event,
                now,
                client,
                next,
                action,
            )
            &&& r.quiet()
            &&& match action {
                VerifyAction::Verified(payload) => {
                    &&& r.next == (Login::ReadingClaims {
                        session: session.with_client(client),
                        tokens,
                        payload,
                    })
                    &&& r.action matches LoginAction::ReadClaims(p) && p@ == payload@
                },
                VerifyAction::FetchDiscovery(url) => {
                    &&& r.next == (Login::Verifying {
                        session: session.with_client(client),
                        tokens,
                        stage: next,
                    })
                    &&& r.action == LoginAction::FetchDiscovery(url)
                },
                VerifyAction::FetchJwks(url) => {
                    &&& r.next == (Login::Verifying {
                        session: session.with_client(client),
                        tokens,
                        stage: next,
                    })
                    &&& r.action == LoginAction::FetchJwks(url)
                },
                VerifyAction::Fail(e) => r.fails(LoginError::IdToken(e)),
            }
        }
}

/// Goes on with the check of the identity token.
fn check(
    session: Session,
    tokens: TokenResponse,
    stage: KeyStage,
    event: KeyEvent,
    now: Moment,
) -> (r: LoginStep)
    ensures
        checking(session, tokens, stage, event, now, r),
{
    let ghost before = session;
    let mut session = session;
    let (next, action) = session.client.verify_id_token(
        tokens.id_token.as_str(),
        stage,
        event,
        now,
    );
    assert(session == before.with_client(session.client));
    assert(token_step(
        before.client,
        tokens.id_token@,
        seq![before.client@.client_id],
        false,
        stage,
        event,
        now,
        session.client,
        next,
        action,
    ));
    match action {
        VerifyAction::Verified(payload) => {
            let read = slice_to_vec(payload.as_slice());
            quiet(
                Login::ReadingClaims { session, tokens, payload },
                LoginAction::ReadClaims(read),
            )
        },
        VerifyAction::FetchDiscovery(url) => quiet(
            Login::Verifying { session, tokens, stage: next },
            LoginAction::FetchDiscovery(url),
        ),
        VerifyAction::FetchJwks(url) => quiet(
            Login::Verifying { session, tokens, stage: next },
            LoginAction::FetchJwks(url),
        ),
        VerifyAction::Fail(e) => fail(LoginError::IdToken(e)),
    }
}

/// The credentials that a login leaves.
pub open spec fn login_credentials(
    session: Session,
    tokens: TokenResponse,
    email: Option<String>,
    now: Timestamp,
) -> CredentialsView {
    CredentialsView {
        issuer: session.client@.issuer,
        client_id: session.client@.client_id,
        id_token: tokens.id_token@,
        access_token: tokens.access_token@,
        refresh_token: tokens.refresh_token.deep_view(),
        license_jwt: tokens.mcpg_license_jwt.deep_view(),
        email: email.deep_view(),
        stored_at: now,
    }
}

/// How a login goes on when its credentials are to be written, after a line.
pub open spec fn storing(
    session: Session,
    tokens: TokenResponse,
    email: Option<String>,
    line: LineView,
    now: Timestamp,
    r: LoginStep,
) -> bool {
    &&& r.next is Saving
    &&& lines_view(r.lines@) == seq![line]
    &&& r.action matches LoginAction::Save(creds) && creds@ == login_credentials(
        session,
        tokens,
        email,
        now,
    )
}

/// Goes on to write the credentials, after a line.
fn store(
    session: Session,
    tokens: TokenResponse,
    email: Option<String>,
    line: Line,
    now: Timestamp,
) -> (r: LoginStep)
    ensures
        storing(session, tokens, email, line@, now, r),
{
    let ghost shown = line@;
    let lines = vec![line];
    assert(lines_view(lines@) =~= seq![shown]);
    let creds = StoredCredentials {
        issuer: session.client.issuer(),
        client_id: session.client.client_id(),
        id_token: tokens.id_token,
        access_token: tokens.access_token,
        refresh_token: tokens.refresh_token,
        license_jwt: tokens.mcpg_license_jwt,
        email,
        stored_at: now,
    };
    LoginStep { next: Login::Saving, lines, action: LoginAction::Save(creds) }
}

/// The line for a license that could not be checked, or that is not taken.
pub open spec fn license_refused(e: Seq<char>) -> LineView {
    LineView::Note("  ! license verify failed: "@ + e)
}

/// How a login goes on while the license is checked. A license that is not taken ends nothing.
pub open spec fn licensing(
    session: Session,
    tokens: TokenResponse,
    email: Option<String>,
    license: String,
    stage: KeyStage,
    event: KeyEvent,
    at: Moment,
    r: LoginStep,
) -> bool {
    exists|client: OidcClient, next: KeyStage, action: VerifyAction|
        {
            &&& #[trigger] token_step(
                session.client,
                license@,
                seq!["mcpg-cp"@],
                true,
                stage,
                event,
                at,
                client,
                next,
                action,
            )
            &&& match action {
                VerifyAction::Verified(v) => {
                    &&& r.next == (Login::ReadingLicense {
                        session: session.with_client(client),
                        tokens,
                        email,
                    })
                    &&& r.quiet()
                    &&& r.action == LoginAction::ReadLicense(v)
                },
                VerifyAction::FetchDiscovery(url) => {
                    &&& r.next == (Login::Licensing {
                        session: session.with_client(client),
                        tokens,
                        email,
                        license,
                        stage: next,
                    })
                    &&& r.quiet()
                    &&& r.action == LoginAction::FetchDiscovery(url)
                },
                VerifyAction::FetchJwks(url) => {
                    &&& r.next == (Login::Licensing {
                        session: session.with_client(client),
                        tokens,
                        email,
                        license,
                        stage: next,
                    })
                    &&& r.quiet()
                    &&& r.action == LoginAction::FetchJwks(url)
                },
                VerifyAction::Fail(e) => storing(
                    session,
                    tokens,
                    email,
                    license_refused(verify_message(e@)),
                    at.wall,
                    r,
                ),
            }
        }
}

/// Goes on with the check of the license.
fn check_license(
    session: Session,
    tokens: TokenResponse,
    email: Option<String>,
    license: String,
    stage: KeyStage,
    event: KeyEvent,
    at: Moment,
) -> (r: LoginStep)
    ensures
        licensing(session, tokens, email, license, stage, event, at, r),
{
    let ghost before = session;
    let mut session = session;
    let audience = vec!["mcpg-cp".to_owned()];
    assert(audience.deep_view() =~= seq!["mcpg-cp"@]);
    let (next, action) = session.client.verify_signed_claims(
        license.as_str(),
        &audience,
        true,
        stage,
        event,
        at,
    );
    assert(session == before.with_client(session.client));
    assert(token_step(
        before.client,
        license@,
        seq!["mcpg-cp"@],
        true,
        stage,
        event,
        at,
        session.client,
        next,
        action,
    ));
    match action {
        VerifyAction::Verified(v) => quiet(
            Login::ReadingLicense { session, tokens, email },
            LoginAction::ReadLicense(v),
        ),
        VerifyAction::FetchDiscovery(url) => quiet(
            Login::Licensing { session, tokens, email, license, stage: next },
            LoginAction::FetchDiscovery(url),
        ),
        VerifyAction::FetchJwks(url) => quiet(
            Login::Licensing { session, tokens, email, license, stage: next },
            LoginAction::FetchJwks(url),
        ),
        VerifyAction::Fail(e) => {
            let m = e.message();
            let line = Line::Note("  ! license verify failed: ".to_owned().concat(m.as_str()));
            store(session, tokens, email, line, at.wall)
        },
    }
}

/// How a login goes on when the account is known: the license is checked where the issuer gave one.
pub open spec fn identified(
    session: Session,
    tokens: TokenResponse,
    email: Option<String>,
    at: Moment,
    r: LoginStep,
) -> bool {
    match tokens.mcpg_license_jwt {
        Some(license) => licensing(
            session,
            tokens,
            email,
            license,
            KeyStage::Start,
            KeyEvent::Begin,
            at,
            r,
        ),
        None => storing(
            session,
            tokens,
            email,
            LineView::Out("  · provider returned no MCPG license — using id_token only"@),
            at.wall,
            r,
        ),
    }
}

/// Goes on when the account is known.
pub fn on_claims(session: Session, tokens: TokenResponse, email: Option<String>, at: Moment) -> (r:
    LoginStep)
    ensures
        identified(session, tokens, email, at, r),
{
    match tokens.mcpg_license_jwt.clone() {
        Some(license) => check_license(
            session,
            tokens,
            email,
            license,
            KeyStage::Start,
            KeyEvent::Begin,
            at,
        ),
        None => store(
            session,
            tokens,
            email,
            Line::Out(
                "  · provider returned no MCPG license — using id_token only".to_owned(),
            ),
            at.wall,
        ),
    }
}

/// How a login goes on when the claims of the identity token were read: they are those that it
/// carries, or the login ends.
pub open spec fn claimed(
    session: Session,
    tokens: TokenResponse,
    payload: Seq<u8>,
    claims: IdTokenClaims,
    at: Moment,
    r: LoginStep,
) -> bool {
    match json_parse(payload) {
        Some(carried) if claims.reads(carried) => identified(
            session,
            tokens,
            claims.email,
            at,
            r,
        ),
        _ => r.fails(LoginError::IdToken(VerifyError::Unread)),
    }
}

/// Goes on when the claims of the identity token were read.
fn claim(
    session: Session,
    tokens: TokenResponse,
    payload: &Vec<u8>,
    claims: IdTokenClaims,
    at: Moment,
) -> (r: LoginStep)
    ensures
        claimed(session, tokens, payload@, claims, at, r),
{
    match parse_json(payload.as_slice()) {
        Some(carried) => match id_token_claims(&carried, claims) {
            Ok(claims) => on_claims(session, tokens, claims.email, at),
            Err(e) => fail(LoginError::IdToken(e)),
        },
        None => fail(LoginError::IdToken(VerifyError::Unread)),
    }
}

/// The line for a license.
pub open spec fn license_line(preview: LicensePreview) -> LineView {
    LineView::Out(
        "  ✓ license:   plan="@ + preview.plan@ + " tenant="@ + preview.tenant_slug@,
    )
}

/// One step of a login.
pub open spec fn login_step(flow: Login, event: LoginEvent, at: Moment, r: LoginStep) -> bool {
    match (flow, event) {
        (Login::Start { issuer_url, client_id, no_browser, program }, LoginEvent::Begin) => started(
            url_parse(issuer_url@),
            client_id@,
            no_browser,
            program@,
            r,
        ),
        (Login::Binding(setup), LoginEvent::Bound { addr, pkce, state }) => bound(
            setup,
            addr@,
            pkce,
            state,
            r,
        ),
        (
            Login::Discovering { client, pkce, state, no_browser },
            LoginEvent::Discovered(doc),
        ) => discovered(client, pkce, state, no_browser, doc, r),
        (Login::Opening { session, url }, LoginEvent::BrowserOpened) => {
            &&& r.next == Login::Waiting(session)
            &&& r.quiet()
            &&& r.action is AwaitCallback
        },
        (Login::Opening { session, url }, LoginEvent::BrowserFailed(e)) => browser_failed(
            session,
            url@,
            e@,
            r,
        ),
        (Login::Waiting(session), LoginEvent::Callback(params)) => called_back(session, params, r),
        (Login::Exchanging(session), LoginEvent::Exchanged(tokens)) => checking(
            session,
            tokens,
            KeyStage::Start,
            KeyEvent::Begin,
            at,
            r,
        ),
        (Login::Exchanging(session), LoginEvent::Refused(body)) => r.fails(
            LoginError::TokenEndpoint(body),
        ),
        (Login::Verifying { session, tokens, stage }, LoginEvent::Key(e)) => checking(
            session,
            tokens,
            stage,
            e,
            at,
            r,
        ),
        (Login::Verifying { session, tokens, stage }, LoginEvent::Failed(e)) => r.fails(
            LoginError::IdTokenCheck(e),
        ),
        (Login::ReadingClaims { session, tokens, payload }, LoginEvent::Claims(claims)) => claimed(
            session,
            tokens,
            payload@,
            claims,
            at,
            r,
        ),
        (Login::ReadingClaims { session, tokens, payload }, LoginEvent::Failed(e)) => r.fails(
            LoginError::IdTokenCheck(e),
        ),
        (
            Login::Licensing { session, tokens, email, license, stage },
            LoginEvent::Key(e),
        ) => licensing(session, tokens, email, license, stage, e, at, r),
        (
            Login::Licensing { session, tokens, email, license, stage },
            LoginEvent::Failed(e),
        ) => storing(session, tokens, email, license_refused(e@), at.wall, r),
        (
            Login::ReadingLicense { session, tokens, email },
            LoginEvent::License(preview),
        ) => storing(session, tokens, email, license_line(preview), at.wall, r),
        (Login::ReadingLicense { session, tokens, email }, LoginEvent::Failed(e)) => storing(
            session,
            tokens,
            email,
            license_refused(e@),
            at.wall,
            r,
        ),
        (Login::Saving, LoginEvent::Saved(path)) => {
            &&& r.next is Ended
            &&& lines_view(r.lines@) == seq![
                LineView::Out("  ✓ Signed in. Credentials written to "@ + path@),
            ]
            &&& r.action is Done
        },
        (Login::Ended, LoginEvent::Failed(_)) => r.fails(LoginError::OutOfTurn),
        (_, LoginEvent::Failed(e)) => r.fails(LoginError::Outside(e)),
        _ => r.fails(LoginError::OutOfTurn),
    }
}

/// Takes one step of a login.
pub fn run(flow: Login, event: LoginEvent, at: Moment) -> (r: LoginStep)
    ensures
        login_step(flow, event, at, r),
{
    match (flow, event) {
        (Login::Start { issuer_url, client_id, no_browser, program }, LoginEvent::Begin) => start(
            parse_link(issuer_url.as_str()),
            client_id,
            no_browser,
            program.as_str(),
        ),
        (Login::Binding(setup), LoginEvent::Bound { addr, pkce, state }) => on_bound(
            setup,
            addr.as_str(),
            pkce,
            state,
        ),
        (
            Login::Discovering { client, pkce, state, no_browser },
            LoginEvent::Discovered(doc),
        ) => on_discovered(client, pkce, state, no_browser, doc),
        (Login::Opening { session, url: _ }, LoginEvent::BrowserOpened) => quiet(
            Login::Waiting(session),
            LoginAction::AwaitCallback,
        ),
        (Login::Opening { session, url }, LoginEvent::BrowserFailed(e)) => on_browser_failed(
            session,
            url.as_str(),
            e.as_str(),
        ),
        (Login::Waiting(session), LoginEvent::Callback(params)) => on_callback(session, params),
        (Login::Exchanging(session), LoginEvent::Exchanged(tokens)) => check(
            session,
            tokens,
            KeyStage::Start,
            KeyEvent::Begin,
            at,
        ),
        (Login::Exchanging(_), LoginEvent::Refused(body)) => fail(LoginError::TokenEndpoint(body)),
        (Login::Verifying { session, tokens, stage }, LoginEvent::Key(e)) => check(
            session,
            tokens,
            stage,
            e,
            at,
        ),
        (Login::Verifying { session: _, tokens: _, stage: _ }, LoginEvent::Failed(e)) => fail(
            LoginError::IdTokenCheck(e),
        ),
        (Login::ReadingClaims { session, tokens, payload }, LoginEvent::Claims(claims)) => claim(
            session,
            tokens,
            &payload,
            claims,
            at,
        ),
        (Login::ReadingClaims { session: _, tokens: _, payload: _ }, LoginEvent::Failed(e)) => fail(
            LoginError::IdTokenCheck(e),
        ),
        (
            Login::Licensing { session, tokens, email, license, stage },
            LoginEvent::Key(e),
        ) => check_license(session, tokens, email, license, stage, e, at),
        (
            Login::Licensing { session, tokens, email, license: _, stage: _ },
            LoginEvent::Failed(e),
        ) => {
            let line = Line::Note("  ! license verify failed: ".to_owned().concat(e.as_str()));
            store(session, tokens, email, line, at.wall)
        },
        (Login::ReadingLicense { session, tokens, email }, LoginEvent::License(preview)) => {
            let line = Line::Out(
                "  ✓ license:   plan=".to_owned().concat(preview.plan.as_str()).concat(
                    " tenant=",
                ).concat(preview.tenant_slug.as_str()),
            );
            store(session, tokens, email, line, at.wall)
        },
        (Login::ReadingLicense { session, tokens, email }, LoginEvent::Failed(e)) => {
            let line = Line::Note("  ! license verify failed: ".to_owned().concat(e.as_str()));
            store(session, tokens, email, line, at.wall)
        },
        (Login::Saving, LoginEvent::Saved(path)) => {
            let lines = vec![
                Line::Out(
                    "  ✓ Signed in. Credentials written to ".to_owned().concat(path.as_str()),
                ),
            ];
            assert(lines_view(lines@) =~= seq![
                LineView::Out("  ✓ Signed in. Credentials written to "@ + path@),
            ]);
            LoginStep { next: Login::Ended, lines, action: LoginAction::Done }
        },
        (Login::Ended, LoginEvent::Failed(_)) => fail(LoginError::OutOfTurn),
        (_, LoginEvent::Failed(e)) => fail(LoginError::Outside(e)),
        _ => fail(LoginError::OutOfTurn),
    }
}

/// What to do to log out, and what is printed once it is done.
pub enum LogoutStep {
    /// Remove the file of credentials.
    Remove(String),
    /// There is none.
    Nothing(String),
}

/// Decides what a logout does, given whether there is a file of credentials and how its path is
/// shown.
pub fn logout(exists_now: bool, path: &str) -> (r: LogoutStep)
    ensures
        match r {
            LogoutStep::Remove(line) => exists_now && line@ == "✓ Removed "@ + path@,
            LogoutStep::Nothing(line) => !exists_now && line@ == "· No stored credentials at "@
                + path@,
        },
        match r {
            LogoutStep::Remove(line) => logged_out(exists_now, path@) == (true, line@),
            LogoutStep::Nothing(line) => logged_out(exists_now, path@) == (false, line@),
        },
{
    if exists_now {
        LogoutStep::Remove("✓ Removed ".to_owned().concat(path))
    } else {
        LogoutStep::Nothing("· No stored credentials at ".to_owned().concat(path))
    }
}

/// One move of a login.
pub struct LoginMove {
    pub flow: Login,
    pub event: LoginEvent,
    pub at: Moment,
    pub step: LoginStep,
}

/// Whether `moves` are a login from its start, each move from where the one before led.
pub open spec fn is_login(moves: Seq<LoginMove>) -> bool {
    &&& moves.len() > 0
    &&& moves[0].flow is Start
    &&& forall|i: int|
        0 <= i < moves.len() ==> #[trigger] login_step(
            moves[i].flow,
            moves[i].event,
            moves[i].at,
            moves[i].step,
        )
    &&& forall|i: int| 0 < i < moves.len() ==> (#[trigger] moves[i]).flow == moves[i - 1].step.next
}

/// Whether a redirect came back to a login that awaited it, with a code and the state that was sent.
pub open spec fn is_answer(m: LoginMove, state: Seq<char>) -> bool {
    &&& m.flow matches Login::Waiting(session) && session.state@ == state
    &&& m.event matches LoginEvent::Callback(params) && params.state@ == state && params.code is Some
}

/// Whether an identity token passed its check, as one of the issuer for the client: under a key of the
/// issuer, with claims that name both.
pub open spec fn is_check(
    m: LoginMove,
    issuer: Seq<char>,
    client_id: Seq<char>,
    id_token: Seq<char>,
) -> bool {
    m.step.next matches Login::ReadingClaims { session, tokens, payload } && {
        &&& session.client@.issuer == issuer
        &&& session.client@.client_id == client_id
        &&& tokens.id_token@ == id_token
        &&& token_payload(id_token) == Some(payload@)
        &&& json_parse(payload@) matches Some(claims) && {
            &&& signed_by_issuer(session.client@, id_token, seq![client_id], false, claims)
            &&& names_one_of(tree_get(claims, "iss"@), seq![issuer_name(issuer)])
            &&& names_one_of(tree_get(claims, "aud"@), seq![client_id])
        }
    }
}

/// Whether the claims of an identity token were read, with the given email: all of them as the token
/// carries them.
pub open spec fn is_reading(m: LoginMove, id_token: Seq<char>, email: Option<Seq<char>>) -> bool {
    &&& m.flow matches Login::ReadingClaims { session, tokens, payload } && {
        &&& tokens.id_token@ == id_token
        &&& token_payload(id_token) == Some(payload@)
        &&& m.event matches LoginEvent::Claims(claims) && {
            &&& claims.email.deep_view() == email
            &&& json_parse(payload@) matches Some(carried) && claims.reads(carried)
        }
    }
}

/// Whether the claims of an identity token were read in one of `moves`.
pub open spec fn has_reading(
    moves: Seq<LoginMove>,
    id_token: Seq<char>,
    email: Option<Seq<char>>,
) -> bool {
    exists|i: int| 0 <= i < moves.len() && is_reading(#[trigger] moves[i], id_token, email)
}

/// Whether the browser was sent to the issuer for a session: with its state and the challenge of its
/// verifier, for its client, and to come back to its redirect URI.
pub open spec fn is_request(m: LoginMove, session: Session) -> bool {
    &&& m.flow matches Login::Discovering { client, pkce, state, no_browser } && {
        &&& pkce == session.pkce
        &&& state == session.state
        &&& session.client@.same_setup(client@)
    }
    &&& m.event matches LoginEvent::Discovered(doc) && doc == session.doc
    &&& m.step.next is Opening || m.step.next is Waiting
}

/// Whether the browser was sent to the issuer for a session in one of `moves`.
pub open spec fn has_request(moves: Seq<LoginMove>, session: Session) -> bool {
    exists|i: int| 0 <= i < moves.len() && is_request(#[trigger] moves[i], session)
}

/// Whether a redirect came back in one of `moves`.
pub open spec fn has_answer(moves: Seq<LoginMove>, state: Seq<char>) -> bool {
    exists|i: int| 0 <= i < moves.len() && is_answer(#[trigger] moves[i], state)
}

/// Whether an identity token passed its check in one of `moves`.
pub open spec fn has_check(
    moves: Seq<LoginMove>,
    issuer: Seq<char>,
    client_id: Seq<char>,
    id_token: Seq<char>,
) -> bool {
    exists|i: int|
        0 <= i < moves.len() && is_check(#[trigger] moves[i], issuer, client_id, id_token)
}

/// Whether a session has come as far as its identity token.
spec fn session_checked(moves: Seq<LoginMove>, session: Session, tokens: TokenResponse) -> bool {
    &&& has_request(moves, session)
    &&& has_answer(moves, session.state@)
    &&& has_check(
        moves,
        session.client@.issuer,
        session.client@.client_id,
        tokens.id_token@,
    )
}

/// What has happened by the time that a login is where it is.
spec fn earned(moves: Seq<LoginMove>, flow: Login) -> bool {
    match flow {
        Login::Opening { session, url } => has_request(moves, session),
        Login::Waiting(session) => has_request(moves, session),
        Login::Exchanging(session) => has_request(moves, session) && has_answer(
            moves,
            session.state@,
        ),
        Login::Verifying { session, tokens, stage } => has_request(moves, session) && has_answer(
            moves,
            session.state@,
        ),
        Login::ReadingClaims { session, tokens, payload } => {
            &&& session_checked(moves, session, tokens)
            &&& token_payload(tokens.id_token@) == Some(payload@)
        },
        Login::Licensing { session, tokens, email, license, stage } => {
            &&& session_checked(moves, session, tokens)
            &&& has_reading(moves, tokens.id_token@, email.deep_view())
        },
        Login::ReadingLicense { session, tokens, email } => {
            &&& session_checked(moves, session, tokens)
            &&& has_reading(moves, tokens.id_token@, email.deep_view())
        },
        _ => true,
    }
}

/// What a client learns changes nothing about the request.
proof fn lemma_request_stays(moves: Seq<LoginMove>, session: Session, client: OidcClient)
    requires
        has_request(moves, session),
        client@.same_setup(session.client@),
    ensures
        has_request(moves, session.with_client(client)),
{
    let i = choose|i: int| 0 <= i < moves.len() && is_request(#[trigger] moves[i], session);
    assert(is_request(moves[i], session.with_client(client)));
}

proof fn lemma_earned_grows(moves: Seq<LoginMove>, flow: Login)
    requires
        moves.len() > 0,
        earned(moves.drop_last(), flow),
    ensures
        earned(moves, flow),
{
    let before = moves.drop_last();
    assert forall|session: Session| has_request(before, session) implies has_request(
        moves,
        session,
    ) by {
        let i = choose|i: int| 0 <= i < before.len() && is_request(#[trigger] before[i], session);
        assert(is_request(moves[i], session));
    }
    assert forall|state: Seq<char>| has_answer(before, state) implies has_answer(moves, state) by {
        let i = choose|i: int| 0 <= i < before.len() && is_answer(#[trigger] before[i], state);
        assert(is_answer(moves[i], state));
    }
    assert forall|issuer: Seq<char>, client_id: Seq<char>, id_token: Seq<char>|
        has_check(before, issuer, client_id, id_token) implies has_check(
        moves,
        issuer,
        client_id,
        id_token,
    ) by {
        let i = choose|i: int|
            0 <= i < before.len() && is_check(#[trigger] before[i], issuer, client_id, id_token);
        assert(is_check(moves[i], issuer, client_id, id_token));
    }
    assert forall|id_token: Seq<char>, email: Option<Seq<char>>|
        has_reading(before, id_token, email) implies has_reading(moves, id_token, email) by {
        let i = choose|i: int|
            0 <= i < before.len() && is_reading(#[trigger] before[i], id_token, email);
        assert(is_reading(moves[i], id_token, email));
    }
}

proof fn lemma_checked(
    moves: Seq<LoginMove>,
    session: Session,
    tokens: TokenResponse,
    stage: KeyStage,
    event: KeyEvent,
    now: Moment,
)
    requires
        moves.len() > 0,
        has_request(moves, session),
        has_answer(moves, session.state@),
        checking(session, tokens, stage, event, now, moves.last().step),
    ensures
        earned(moves, moves.last().step.next),
{
    let m = moves.last();
    let (client, next, action) = choose|client: OidcClient, next: KeyStage, action: VerifyAction|
        {
            &&& #[trigger] token_step(
                session.client,
                tokens.id_token@,
                seq![session.client@.client_id],
                false,
                stage,
                event,
                now,
                client,
                next,
                action,
            )
            &&& match action {
                VerifyAction::Verified(payload) => m.step.next == (Login::ReadingClaims {
                    session: session.with_client(client),
                    tokens,
                    payload,
                }),
                VerifyAction::FetchDiscovery(url) => m.step.next == (Login::Verifying {
                    session: session.with_client(client),
                    tokens,
                    stage: next,
                }),
                VerifyAction::FetchJwks(url) => m.step.next == (Login::Verifying {
                    session: session.with_client(client),
                    tokens,
                    stage: next,
                }),
                VerifyAction::Fail(e) => m.step.next is Ended,
            }
        };
    lemma_request_stays(moves, session, client);
    if let VerifyAction::Verified(payload) = action {
        law_verified_tokens_are_held_to_all(
            session.client@,
            tokens.id_token@,
            seq![session.client@.client_id],
            false,
            stage,
            event,
            now,
            client@,
            next,
            payload,
        );
        assert(is_check(
            moves[moves.len() - 1],
            session.client@.issuer,
            session.client@.client_id,
            tokens.id_token@,
        ));
    }
}

proof fn lemma_licensed(
    moves: Seq<LoginMove>,
    session: Session,
    tokens: TokenResponse,
    email: Option<String>,
    license: String,
    stage: KeyStage,
    event: KeyEvent,
    at: Moment,
)
    requires
        moves.len() > 0,
        session_checked(moves, session, tokens),
        has_reading(moves, tokens.id_token@, email.deep_view()),
        licensing(session, tokens, email, license, stage, event, at, moves.last().step),
    ensures
        earned(moves, moves.last().step.next),
{
    assert forall|client: OidcClient| client@.same_setup(session.client@) implies #[trigger] has_request(
        moves,
        session.with_client(client),
    ) by {
        lemma_request_stays(moves, session, client);
    }
}

proof fn lemma_earned(moves: Seq<LoginMove>)
    requires
        is_login(moves),
    ensures
        earned(moves.drop_last(), moves.last().flow),
        earned(moves, moves.last().step.next),
    decreases moves.len(),
{
    let m = moves.last();
    let before = moves.drop_last();
    assert(login_step(
        moves[moves.len() - 1].flow,
        moves[moves.len() - 1].event,
        moves[moves.len() - 1].at,
        moves[moves.len() - 1].step,
    ));
    if moves.len() > 1 {
        lemma_login_prefix(moves);
        lemma_earned(before);
    }
    lemma_earned_grows(moves, m.flow);
    match (m.flow, m.event) {
        (
            Login::Discovering { client, pkce, state, no_browser },
            LoginEvent::Discovered(doc),
        ) => {
            if let Login::Opening { session, url } = m.step.next {
                assert(is_request(moves[moves.len() - 1], session));
            }
            if let Login::Waiting(session) = m.step.next {
                assert(is_request(moves[moves.len() - 1], session));
            }
        },
        (Login::Waiting(session), LoginEvent::Callback(params)) => {
            if m.step.next is Exchanging {
                assert(is_answer(moves[moves.len() - 1], session.state@));
            }
        },
        (Login::Exchanging(session), LoginEvent::Exchanged(tokens)) => {
            lemma_checked(moves, session, tokens, KeyStage::Start, KeyEvent::Begin, m.at);
        },
        (Login::Verifying { session, tokens, stage }, LoginEvent::Key(e)) => {
            lemma_checked(moves, session, tokens, stage, e, m.at);
        },
        (Login::ReadingClaims { session, tokens, payload }, LoginEvent::Claims(claims)) if !(
        m.step.next is Ended) => {
            assert(is_reading(
                moves[moves.len() - 1],
                tokens.id_token@,
                claims.email.deep_view(),
            ));
            if let Some(license) = tokens.mcpg_license_jwt {
                lemma_licensed(
                    moves,
                    session,
                    tokens,
                    claims.email,
                    license,
                    KeyStage::Start,
                    KeyEvent::Begin,
                    m.at,
                );
            }
        },
        (Login::Licensing { session, tokens, email, license, stage }, LoginEvent::Key(e)) => {
            lemma_licensed(moves, session, tokens, email, license, stage, e, m.at);
        },
        _ => {},
    }
}

/// However a login goes, credentials are stored only after the browser was sent to the issuer, the
/// redirect came back with a code and the state that was sent, and the identity token that is stored
/// passed its check, as one of the issuer that is stored for the client that is stored. The email that
/// is stored is the one that was read of that token.
pub proof fn law_stored_logins_were_checked(moves: Seq<LoginMove>)
    requires
        is_login(moves),
    ensures
        moves.last().step.action matches LoginAction::Save(creds) ==> {
            &&& exists|session: Session|
                {
                    &&& #[trigger] has_request(moves, session)
                    &&& has_answer(moves, session.state@)
                    &&& session.client@.issuer == creds@.issuer
                    &&& session.client@.client_id == creds@.client_id
                }
            &&& has_check(moves, creds@.issuer, creds@.client_id, creds@.id_token)
            &&& has_reading(moves, creds@.id_token, creds@.email)
            &&& creds@.stored_at == moves.last().at.wall
        },
{
    lemma_earned(moves);
    let m = moves.last();
    lemma_earned_grows(moves, m.flow);
    assert(login_step(
        moves[moves.len() - 1].flow,
        moves[moves.len() - 1].event,
        moves[moves.len() - 1].at,
        moves[moves.len() - 1].step,
    ));
    if let Login::ReadingClaims { session, tokens, payload } = m.flow {
        if let LoginEvent::Claims(claims) = m.event {
            if !(m.step.next is Ended) {
                assert(is_reading(
                    moves[moves.len() - 1],
                    tokens.id_token@,
                    claims.email.deep_view(),
                ));
            }
        }
    }
}

/// However a login goes, a code is sent only after a redirect brought back the state that went out
/// with the browser, and it is sent with the verifier of the challenge that went out with it.
pub proof fn law_codes_are_sent_with_their_verifier(moves: Seq<LoginMove>)
    requires
        is_login(moves),
    ensures
        moves.last().step.action matches LoginAction::Exchange { endpoint, form } ==> exists|
            session: Session,
            code: Seq<char>,
        |
            {
                &&& has_request(moves, session)
                &&& moves.last().event matches LoginEvent::Callback(params) && params.state@
                    == session.state@ && params.code.deep_view() == Some(code)
                &&& endpoint@ == session.doc.token_endpoint@
                &&& form.deep_view() == #[trigger] exchange_fields(
                    code,
                    session.client@.redirect_uri,
                    session.client@.client_id,
                    session.pkce.verifier@,
                    session.client@.client_secret,
                )
            },
{
    lemma_earned(moves);
    let m = moves.last();
    lemma_earned_grows(moves, m.flow);
    assert(login_step(
        moves[moves.len() - 1].flow,
        moves[moves.len() - 1].event,
        moves[moves.len() - 1].at,
        moves[moves.len() - 1].step,
    ));
}

/// Whether none of `moves` calls for credentials to be written.
spec fn unwritten(moves: Seq<LoginMove>) -> bool {
    forall|i: int| 0 <= i < moves.len() ==> !((#[trigger] moves[i]).step.action is Save)
}

/// What a step writes and where it leads.
proof fn lemma_step_writes(flow: Login, event: LoginEvent, at: Moment, r: LoginStep)
    requires
        login_step(flow, event, at, r),
    ensures
        r.action is Save <==> r.next is Saving,
        r.action is Done ==> r.next is Ended,
        flow is Ended || flow is Saving ==> r.next is Ended,
{
}

proof fn lemma_unwritten(moves: Seq<LoginMove>)
    requires
        is_login(moves),
        !(moves.last().step.next is Ended),
    ensures
        moves.last().step.next is Saving ==> unwritten(moves.drop_last()),
        !(moves.last().step.next is Saving) ==> unwritten(moves),
    decreases moves.len(),
{
    let m = moves.last();
    let before = moves.drop_last();
    assert(login_step(
        moves[moves.len() - 1].flow,
        moves[moves.len() - 1].event,
        moves[moves.len() - 1].at,
        moves[moves.len() - 1].step,
    ));
    lemma_step_writes(m.flow, m.event, m.at, m.step);
    if moves.len() > 1 {
        lemma_login_prefix(moves);
        lemma_unwritten(before);
        assert(unwritten(before));
    }
    assert forall|i: int| 0 <= i < moves.len() && !(m.step.next is Saving) implies !((
    #[trigger] moves[i]).step.action is Save) by {
        if i < before.len() {
            assert(before[i] == moves[i]);
        } else {
            assert(moves[i] == m);
        }
    }
}

proof fn lemma_login_prefix(moves: Seq<LoginMove>)
    requires
        is_login(moves),
        moves.len() > 1,
    ensures
        is_login(moves.drop_last()),
        moves.last().flow == moves.drop_last().last().step.next,
{
    let before = moves.drop_last();
    assert forall|i: int| 0 <= i < before.len() implies #[trigger] login_step(
        before[i].flow,
        before[i].event,
        before[i].at,
        before[i].step,
    ) by {
        assert(login_step(moves[i].flow, moves[i].event, moves[i].at, moves[i].step));
    }
    assert forall|i: int| 0 < i < before.len() implies (#[trigger] before[i]).flow == before[i
        - 1].step.next by {
        assert(moves[i].flow == moves[i - 1].step.next);
    }
    assert(before[0] == moves[0]);
    assert(moves[moves.len() - 1].flow == moves[moves.len() - 2].step.next);
}

/// A login that fails has written nothing: no credentials were to be written in it, unless it is their
/// writing that failed.
pub proof fn law_failed_logins_write_nothing(moves: Seq<LoginMove>)
    requires
        is_login(moves),
        !(moves.last().flow is Ended),
        moves.last().step.action is Fail,
    ensures
        forall|i: int|
            0 <= i < moves.len() && (#[trigger] moves[i]).step.action is Save ==> i == moves.len()
                - 2 && moves.last().flow is Saving && !(moves.last().event is Saved),
        forall|i: int| 0 <= i < moves.len() ==> !((#[trigger] moves[i]).step.action is Done),
{
    let m = moves.last();
    let before = moves.drop_last();
    assert(login_step(
        moves[moves.len() - 1].flow,
        moves[moves.len() - 1].event,
        moves[moves.len() - 1].at,
        moves[moves.len() - 1].step,
    ));
    if moves.len() > 1 {
        lemma_login_prefix(moves);
        lemma_unwritten(before);
        lemma_not_over(before);
        assert(forall|i: int| 0 <= i < before.len() ==> before[i] == moves[i]);
        assert(forall|i: int|
            0 <= i < before.len() - 1 ==> #[trigger] before[i] == before.drop_last()[i]);
        assert forall|i: int| 0 <= i < moves.len() && (#[trigger] moves[i]).step.action is Save implies i
            == moves.len() - 2 && m.flow is Saving && !(m.event is Saved) by {
            assert(i < before.len());
            assert(before[i].step.action is Save);
            if i < before.len() - 1 {
                assert(before.drop_last()[i].step.action is Save);
            }
        }
        assert forall|i: int| 0 <= i < moves.len() implies !((#[trigger] moves[i]).step.action is Done) by {
            if i < before.len() {
                assert(before[i] == moves[i]);
            }
        }
    }
}

/// A login that is not over is not done.
proof fn lemma_not_over(moves: Seq<LoginMove>)
    requires
        is_login(moves),
        !(moves.last().step.next is Ended),
    ensures
        forall|i: int| 0 <= i < moves.len() ==> !((#[trigger] moves[i]).step.action is Done),
    decreases moves.len(),
{
    let before = moves.drop_last();
    assert(login_step(
        moves[moves.len() - 1].flow,
        moves[moves.len() - 1].event,
        moves[moves.len() - 1].at,
        moves[moves.len() - 1].step,
    ));
    if moves.len() > 1 {
        lemma_login_prefix(moves);
        lemma_not_over(before);
        assert forall|i: int| 0 <= i < moves.len() implies !((#[trigger] moves[i]).step.action is Done) by {
            if i < before.len() {
                assert(before[i] == moves[i]);
            }
        }
    }
}

/// A redirect that brings back another state than the one that was sent ends the login, whatever else
/// it brings.
pub proof fn law_other_states_end_the_login(
    session: Session,
    params: CallbackParams,
    at: Moment,
    r: LoginStep,
)
    requires
        login_step(Login::Waiting(session), LoginEvent::Callback(params), at, r),
        params.state@ != session.state@,
    ensures
        r.fails(LoginError::StateMismatch),
{
}

/// A license that is not taken, or that cannot be checked, does not end a login.
pub proof fn law_licenses_end_no_login(flow: Login, event: LoginEvent, at: Moment, r: LoginStep)
    requires
        login_step(flow, event, at, r),
        flow is Licensing && (event is Key || event is Failed) || flow is ReadingLicense && (
        event is License || event is Failed),
    ensures
        !(r.action is Fail),
{
}

/// The tokens that a login holds, from when the issuer gave them.
pub open spec fn tokens_of(flow: Login) -> Option<TokenResponse> {
    match flow {
        Login::Verifying { session, tokens, stage } => Some(tokens),
        Login::ReadingClaims { session, tokens, payload } => Some(tokens),
        Login::Licensing { session, tokens, email, license, stage } => Some(tokens),
        Login::ReadingLicense { session, tokens, email } => Some(tokens),
        _ => None,
    }
}

/// The issuer and the client that a login is for, from when the issuer is known to be a URL.
pub open spec fn parties_of(flow: Login) -> Option<(Seq<char>, Seq<char>)> {
    match flow {
        Login::Binding(setup) => Some((setup.issuer@, setup.client_id@)),
        Login::Discovering { client, pkce, state, no_browser } => Some(
            (client@.issuer, client@.client_id),
        ),
        Login::Opening { session, url } => Some((session.client@.issuer, session.client@.client_id)),
        Login::Waiting(session) => Some((session.client@.issuer, session.client@.client_id)),
        Login::Exchanging(session) => Some((session.client@.issuer, session.client@.client_id)),
        Login::Verifying { session, tokens, stage } => Some(
            (session.client@.issuer, session.client@.client_id),
        ),
        Login::ReadingClaims { session, tokens, payload } => Some(
            (session.client@.issuer, session.client@.client_id),
        ),
        Login::Licensing { session, tokens, email, license, stage } => Some(
            (session.client@.issuer, session.client@.client_id),
        ),
        Login::ReadingLicense { session, tokens, email } => Some(
            (session.client@.issuer, session.client@.client_id),
        ),
        _ => None,
    }
}

/// Whether credentials hold the given tokens: each that must be there, and each that may be missing
/// if and only if it is there.
pub open spec fn holds_tokens(creds: StoredCredentials, tokens: TokenResponse) -> bool {
    &&& creds.access_token@ == tokens.access_token@
    &&& creds.id_token@ == tokens.id_token@
    &&& creds.refresh_token is Some <==> tokens.refresh_token is Some
    &&& tokens.refresh_token is Some ==> creds.refresh_token->0@ == tokens.refresh_token->0@
    &&& creds.license_jwt is Some <==> tokens.mcpg_license_jwt is Some
    &&& tokens.mcpg_license_jwt is Some ==> creds.license_jwt->0@ == tokens.mcpg_license_jwt->0@
}

/// Whether the issuer gave tokens to a login that awaited them.
pub open spec fn is_exchange(m: LoginMove, tokens: TokenResponse) -> bool {
    m.flow is Exchanging && m.event == LoginEvent::Exchanged(tokens)
}

/// Whether the issuer gave tokens in one of `moves`.
pub open spec fn has_exchange(moves: Seq<LoginMove>, tokens: TokenResponse) -> bool {
    exists|i: int| 0 <= i < moves.len() && is_exchange(#[trigger] moves[i], tokens)
}

/// Whether a login that is to start is for an issuer and a client.
pub open spec fn is_for(flow: Login, parties: (Seq<char>, Seq<char>)) -> bool {
    flow matches Login::Start { issuer_url, client_id, no_browser, program } && (url_parse(
        issuer_url@,
    ) matches Ok(link) && link.text == parties.0) && client_id@ == parties.1
}

/// Each step keeps the tokens that the issuer gave and the parties of the login, and what is stored is
/// made of them.
pub proof fn law_steps_keep_the_tokens(flow: Login, event: LoginEvent, at: Moment, r: LoginStep)
    requires
        login_step(flow, event, at, r),
    ensures
        tokens_of(r.next) matches Some(tokens) ==> tokens_of(flow) == Some(tokens)
            || flow is Exchanging && event == LoginEvent::Exchanged(tokens),
        parties_of(r.next) is Some && !(flow is Start) ==> parties_of(r.next) == parties_of(flow),
        r.action matches LoginAction::Save(creds) ==> {
            &&& tokens_of(flow) is Some
            &&& holds_tokens(creds, tokens_of(flow)->0)
            &&& parties_of(flow) == Some((creds.issuer@, creds.client_id@))
            &&& creds.stored_at == at.wall
        },
{
    match (flow, event) {
        (Login::ReadingClaims { session, tokens, payload }, LoginEvent::Claims(claims)) => {
            if let Some(license) = tokens.mcpg_license_jwt {
                if !(r.next is Ended) {
                    lemma_licensing(
                        session,
                        tokens,
                        claims.email,
                        license,
                        KeyStage::Start,
                        KeyEvent::Begin,
                        at,
                        r,
                    );
                }
            }
        },
        (Login::Licensing { session, tokens, email, license, stage }, LoginEvent::Key(e)) => {
            lemma_licensing(session, tokens, email, license, stage, e, at, r);
        },
        _ => {},
    }
}

proof fn lemma_licensing(
    session: Session,
    tokens: TokenResponse,
    email: Option<String>,
    license: String,
    stage: KeyStage,
    event: KeyEvent,
    at: Moment,
    r: LoginStep,
)
    requires
        licensing(session, tokens, email, license, stage, event, at, r),
    ensures
        tokens_of(r.next) is Some ==> tokens_of(r.next) == Some(tokens),
        parties_of(r.next) is Some ==> parties_of(r.next) == Some(
            (session.client@.issuer, session.client@.client_id),
        ),
        r.action matches LoginAction::Save(creds) ==> {
            &&& holds_tokens(creds, tokens)
            &&& creds.issuer@ == session.client@.issuer
            &&& creds.client_id@ == session.client@.client_id
            &&& creds.email.deep_view() == email.deep_view()
            &&& creds.stored_at == at.wall
        },
{
}

proof fn lemma_no_way_back(flow: Login, event: LoginEvent, at: Moment, r: LoginStep)
    requires
        login_step(flow, event, at, r),
    ensures
        !(r.next is Start),
{
}

proof fn lemma_tokens_were_given(moves: Seq<LoginMove>)
    requires
        is_login(moves),
    ensures
        tokens_of(moves.last().step.next) matches Some(tokens) ==> has_exchange(moves, tokens),
        parties_of(moves.last().step.next) matches Some(parties) ==> is_for(moves[0].flow, parties),
    decreases moves.len(),
{
    let m = moves.last();
    assert(login_step(
        moves[moves.len() - 1].flow,
        moves[moves.len() - 1].event,
        moves[moves.len() - 1].at,
        moves[moves.len() - 1].step,
    ));
    law_steps_keep_the_tokens(m.flow, m.event, m.at, m.step);
    if moves.len() > 1 {
        let before = moves.drop_last();
        lemma_login_prefix(moves);
        lemma_tokens_were_given(before);
        assert(before[0] == moves[0]);
        if m.flow is Start {
            let k = before.len() - 1;
            assert(login_step(before[k].flow, before[k].event, before[k].at, before[k].step));
            lemma_no_way_back(before[k].flow, before[k].event, before[k].at, before[k].step);
        }
        if let Some(tokens) = tokens_of(m.step.next) {
            if tokens_of(m.flow) == Some(tokens) {
                let i = choose|i: int|
                    0 <= i < before.len() && is_exchange(#[trigger] before[i], tokens);
                assert(is_exchange(moves[i], tokens));
            } else {
                assert(is_exchange(moves[moves.len() - 1], tokens));
            }
        }
    }
}

/// However a login goes, what it stores are tokens that the issuer gave in it: the access token, the
/// identity token, and the refresh token and the license if and only if the issuer gave one. They are
/// stored for the issuer and the client that the login was started for.
pub proof fn law_stored_tokens_were_given(moves: Seq<LoginMove>)
    requires
        is_login(moves),
    ensures
        moves.last().step.action matches LoginAction::Save(creds) ==> {
            &&& exists|i: int, tokens: TokenResponse|
                0 <= i < moves.len() && #[trigger] is_exchange(moves[i], tokens)
                    && creds.access_token@ == tokens.access_token@ && creds.id_token@
                    == tokens.id_token@ && creds.refresh_token.deep_view()
                    == tokens.refresh_token.deep_view() && creds.license_jwt.deep_view()
                    == tokens.mcpg_license_jwt.deep_view()
            &&& is_for(moves[0].flow, (creds.issuer@, creds.client_id@))
        },
{
    let m = moves.last();
    assert(login_step(
        moves[moves.len() - 1].flow,
        moves[moves.len() - 1].event,
        moves[moves.len() - 1].at,
        moves[moves.len() - 1].step,
    ));
    law_steps_keep_the_tokens(m.flow, m.event, m.at, m.step);
    if moves.len() > 1 && m.step.action is Save {
        let before = moves.drop_last();
        lemma_login_prefix(moves);
        lemma_tokens_were_given(before);
        assert(before[0] == moves[0]);
        let tokens = tokens_of(m.flow)->0;
        let i = choose|i: int| 0 <= i < before.len() && is_exchange(#[trigger] before[i], tokens);
        assert(is_exchange(moves[i], tokens));
    }
}

/// Of several values of one name in a query the last counts, whatever stands around it; a name that
/// does not occur has none.
pub proof fn law_queries(
    before: Seq<(Seq<char>, Seq<char>)>,
    after: Seq<(Seq<char>, Seq<char>)>,
    name: Seq<char>,
    value: Seq<char>,
)
    requires
        forall|i: int| 0 <= i < after.len() ==> (#[trigger] after[i]).0 != name,
    ensures
        query_value(before + seq![(name, value)] + after, name) == Some(value),
        query_value(after, name) is None,
    decreases after.len(),
{
    let all = before + seq![(name, value)] + after;
    if after.len() == 0 {
        assert(all.last() == (name, value));
    } else {
        let earlier = after.drop_last();
        assert(after[after.len() - 1].0 != name);
        assert(all.last() == after.last());
        assert(all.drop_last() =~= before + seq![(name, value)] + earlier);
        law_queries(before, earlier, name, value);
    }
}

/// Whether a query hands back the given code, state and error.
pub open spec fn hands_back(query: Seq<(Seq<char>, Seq<char>)>, params: CallbackParams) -> bool {
    &&& params.code.deep_view() == query_value(query, "code"@)
    &&& params.error.deep_view() == query_value(query, "error"@)
    &&& params.state@ == match query_value(query, "state"@) {
        Some(s) => s,
        None => Seq::empty(),
    }
}

/// A query hands back a code, a state and an error, each where it has one, whichever others it has.
pub proof fn law_callbacks(query: Seq<(Seq<char>, Seq<char>)>, params: CallbackParams)
    requires
        hands_back(query, params),
    ensures
        params.code matches Some(code) ==> query_value(query, "code"@) == Some(code@),
        params.code is None ==> query_value(query, "code"@) is None,
        params.error matches Some(e) ==> query_value(query, "error"@) == Some(e@),
        params.error is None ==> query_value(query, "error"@) is None,
        query_value(query, "state"@) matches Some(state) ==> params.state@ == state,
        query_value(query, "state"@) is None ==> params.state@.len() == 0,
{
}

/// Lines are seen as what they hold, in order.
pub proof fn law_lines_are_seen_whole(lines: Seq<Line>)
    ensures
        lines_view(lines).len() == lines.len(),
        forall|i: int|
            #![trigger lines[i]]
            #![trigger lines_view(lines)[i]]
            0 <= i < lines.len() ==> match lines[i] {
                Line::Out(text) => lines_view(lines)[i] == LineView::Out(text@),
                Line::Note(text) => lines_view(lines)[i] == LineView::Note(text@),
            },
{
}

/// A login starts where its issuer is a URL: it tells what it is about to do, and for whom, and has a
/// listener bound. What is no URL ends it at once.
pub proof fn law_logins_start(
    issuer_url: String,
    client_id: String,
    no_browser: bool,
    program: String,
    at: Moment,
    r: LoginStep,
)
    requires
        login_step(
            Login::Start { issuer_url, client_id, no_browser, program },
            LoginEvent::Begin,
            at,
            r,
        ),
    ensures
        match url_parse(issuer_url@) {
            Err(e) => r.action matches LoginAction::Fail(LoginError::Issuer(x)) && x@ == e
                && r.next is Ended && r.lines@.len() == 0,
            Ok(link) => {
                &&& r.action is Bind
                &&& r.next matches Login::Binding(setup) && setup.issuer@ == link.text
                    && setup.client_id@ == client_id@ && setup.no_browser == no_browser
                &&& r.lines@.len() == 3
                &&& r.lines@[0] matches Line::Out(a) && a@ == program@ + " login"@
                &&& r.lines@[1] matches Line::Out(b) && b@ == "  issuer:    "@ + link.text
                &&& r.lines@[2] matches Line::Out(c) && c@ == "  client_id: "@ + client_id@
            },
        },
{
    if url_parse(issuer_url@) is Ok {
        law_lines_are_seen_whole(r.lines@);
    }
}

/// Once the listener is bound, the issuer is asked about itself. The client is a public one, for the
/// parties of the login, and is called back at the listener. The verifier and the state are kept.
pub proof fn law_listeners(
    setup: Setup,
    addr: String,
    pkce: PkcePair,
    state: String,
    at: Moment,
    r: LoginStep,
)
    requires
        login_step(Login::Binding(setup), LoginEvent::Bound { addr, pkce, state }, at, r),
    ensures
        r.next matches Login::Discovering { client, pkce: p, state: s, no_browser } && {
            &&& client@.issuer == setup.issuer@
            &&& client@.client_id == setup.client_id@
            &&& client@.client_secret is None
            &&& client@.redirect_uri == "http://"@ + addr@ + "/callback"@
            &&& client@.discovery is None
            &&& client@.jwks is None
            &&& client@.refetched_at is None
            &&& p.verifier@ == pkce.verifier@
            &&& p.challenge@ == pkce.challenge@
            &&& s@ == state@
            &&& no_browser == setup.no_browser
        },
        r.action matches LoginAction::Discover(url) && url@ == issuer_name(setup.issuer@)
            + "/.well-known/openid-configuration"@,
        r.lines@.len() == 0,
{
}

/// Once the issuer is known, the user is sent to its authorization endpoint with the request of the
/// login: by a browser, or without one by a line that has the URL. The login keeps what it sent out.
/// It ends only where the endpoint is no URL, or no URL can be as long as the request.
pub proof fn law_users_are_sent_out(
    client: OidcClient,
    pkce: PkcePair,
    state: String,
    no_browser: bool,
    doc: DiscoveryDoc,
    at: Moment,
    r: LoginStep,
)
    requires
        login_step(
            Login::Discovering { client, pkce, state, no_browser },
            LoginEvent::Discovered(doc),
            at,
            r,
        ),
    ensures
        ({
            let endpoint = doc.authorization_endpoint@;
            let pairs = request_pairs(
                client@.client_id,
                client@.redirect_uri,
                joined(seq!["openid"@, "email"@, "profile"@], " "@),
                state@,
                pkce.challenge@,
            );
            let url = url_with_pairs(endpoint, pairs);
            match url_parse(endpoint) {
                Err(e) => r.action matches LoginAction::Fail(LoginError::AuthorizeUrl(x)) && x@ == e
                    && r.next is Ended && r.lines@.len() == 0,
                Ok(link) => if !fits_url(endpoint, pairs) {
                    r.action == LoginAction::Fail(LoginError::UrlTooLong) && r.next is Ended
                        && r.lines@.len() == 0
                } else if no_browser {
                    &&& r.next matches Login::Waiting(session) && sent_out(
                        session,
                        client,
                        pkce,
                        state,
                        doc,
                    )
                    &&& r.action is AwaitCallback
                    &&& r.lines@.len() == 1
                    &&& r.lines@[0] matches Line::Out(a) && a@
                        == "\n  → Open this URL to sign in:\n    "@ + url + "\n"@
                } else {
                    &&& r.next matches Login::Opening { session, url: u } && u@ == url && sent_out(
                        session,
                        client,
                        pkce,
                        state,
                        doc,
                    )
                    &&& r.action matches LoginAction::OpenBrowser(u) && u@ == url
                    &&& r.lines@.len() == 1
                    &&& r.lines@[0] matches Line::Out(a) && a@ == "\n  → Opening browser…"@
                },
            }
        }),
{
    law_lines_are_seen_whole(r.lines@);
}

/// Whether a session is the one that a login was sent out with.
pub open spec fn sent_out(
    session: Session,
    client: OidcClient,
    pkce: PkcePair,
    state: String,
    doc: DiscoveryDoc,
) -> bool {
    &&& session.client@.same_setup(client@)
    &&& session.client@.discovery == Some(doc)
    &&& session.client@.jwks == client@.jwks
    &&& session.client@.refetched_at == client@.refetched_at
    &&& session.doc == doc
    &&& session.pkce == pkce
    &&& session.state == state
}

/// Whether the browser opens or not, the redirect is awaited. Where it does not, the user is told why
/// and given the URL.
pub proof fn law_browsers(session: Session, url: String, event: LoginEvent, at: Moment, r: LoginStep)
    requires
        login_step(Login::Opening { session, url }, event, at, r),
        event is BrowserOpened || event is BrowserFailed,
    ensures
        r.next == Login::Waiting(session),
        r.action is AwaitCallback,
        event is BrowserOpened ==> r.lines@.len() == 0,
        event matches LoginEvent::BrowserFailed(e) ==> {
            &&& r.lines@.len() == 2
            &&& r.lines@[0] matches Line::Note(a) && a@ == "  ! browser open failed: "@ + e@
            &&& r.lines@[1] matches Line::Out(b) && b@ == "    paste this URL manually:\n    "@
                + url@
        },
{
    if event is BrowserFailed {
        law_lines_are_seen_whole(r.lines@);
    }
}

/// A redirect with the state that was sent and a code has the code exchanged at the token endpoint of
/// the issuer, whatever else it brings; one without a code ends the login.
pub proof fn law_codes_are_exchanged(
    session: Session,
    params: CallbackParams,
    at: Moment,
    r: LoginStep,
)
    requires
        login_step(Login::Waiting(session), LoginEvent::Callback(params), at, r),
        params.state@ == session.state@,
    ensures
        params.code is None ==> r.action == LoginAction::Fail(LoginError::MissingCode)
            && r.next is Ended,
        params.code matches Some(code) ==> {
            &&& r.next == Login::Exchanging(session)
            &&& r.action matches LoginAction::Exchange { endpoint, form } && endpoint@
                == session.doc.token_endpoint@ && form.deep_view().contains(("code"@, code@))
                && form.deep_view().contains(("code_verifier"@, session.pkce.verifier@))
                && form.deep_view().contains(("redirect_uri"@, session.client@.redirect_uri))
                && form.deep_view().contains(("client_id"@, session.client@.client_id))
                && form.deep_view().contains(("grant_type"@, "authorization_code"@))
                && form.deep_view().len() == if session.client@.client_secret is Some {
                6int
            } else {
                5int
            }
        },
        r.lines@.len() == 0,
{
    if let Some(code) = params.code {
        law_exchanges(
            code@,
            session.client@.redirect_uri,
            session.client@.client_id,
            session.pkce.verifier@,
            session.client@.client_secret,
        );
    }
}

/// Whether a step is one in the check of an identity token, as one for the client: the login asks for
/// what the check asks for, reads the claims once the token passed, and ends if and only if the check
/// refuses the token. It goes on with the same tokens and the same session, but for what the client
/// learned.
pub open spec fn checked_step(
    session: Session,
    tokens: TokenResponse,
    stage: KeyStage,
    key: KeyEvent,
    at: Moment,
    r: LoginStep,
) -> bool {
    exists|client: OidcClient, next: KeyStage, action: VerifyAction|
        {
            &&& #[trigger] token_step(
                session.client,
                tokens.id_token@,
                seq![session.client@.client_id],
                false,
                stage,
                key,
                at,
                client,
                next,
                action,
            )
            &&& action matches VerifyAction::Fail(e) ==> r.next is Ended && r.action
                == LoginAction::Fail(LoginError::IdToken(e))
            &&& action matches VerifyAction::FetchDiscovery(url) ==> r.action
                == LoginAction::FetchDiscovery(url)
            &&& action matches VerifyAction::FetchJwks(url) ==> r.action == LoginAction::FetchJwks(url)
            &&& action is FetchDiscovery || action is FetchJwks ==> r.next == (Login::Verifying {
                session: Session { client, ..session },
                tokens,
                stage: next,
            })
            &&& action matches VerifyAction::Verified(payload) ==> r.next == (Login::ReadingClaims {
                session: Session { client, ..session },
                tokens,
                payload,
            }) && (r.action matches LoginAction::ReadClaims(p) && p@ == payload@)
        }
}

proof fn lemma_checked_step(
    session: Session,
    tokens: TokenResponse,
    stage: KeyStage,
    key: KeyEvent,
    at: Moment,
    r: LoginStep,
)
    requires
        checking(session, tokens, stage, key, at, r),
    ensures
        checked_step(session, tokens, stage, key, at, r),
        r.lines@.len() == 0,
{
}

/// The tokens that the issuer gave are checked, and nothing is printed while they are.
pub proof fn law_tokens_are_checked(
    session: Session,
    tokens: TokenResponse,
    stage: KeyStage,
    key: KeyEvent,
    at: Moment,
    r: LoginStep,
)
    ensures
        login_step(Login::Exchanging(session), LoginEvent::Exchanged(tokens), at, r) ==> checked_step(
            session,
            tokens,
            KeyStage::Start,
            KeyEvent::Begin,
            at,
            r,
        ) && r.lines@.len() == 0,
        login_step(Login::Verifying { session, tokens, stage }, LoginEvent::Key(key), at, r)
            ==> checked_step(session, tokens, stage, key, at, r) && r.lines@.len() == 0,
{
    if login_step(Login::Exchanging(session), LoginEvent::Exchanged(tokens), at, r) {
        lemma_checked_step(session, tokens, KeyStage::Start, KeyEvent::Begin, at, r);
    }
    if login_step(Login::Verifying { session, tokens, stage }, LoginEvent::Key(key), at, r) {
        lemma_checked_step(session, tokens, stage, key, at, r);
    }
}

/// A step in the check of a token is one of the client: it leaves the client set up as it was.
pub proof fn law_token_steps(
    before: OidcClient,
    token: Seq<char>,
    audience: Seq<Seq<char>>,
    validate_nbf: bool,
    stage: KeyStage,
    event: KeyEvent,
    now: Moment,
    after: OidcClient,
    next: KeyStage,
    action: VerifyAction,
)
    requires
        token_step(before, token, audience, validate_nbf, stage, event, now, after, next, action),
    ensures
        verify_step(
            before@,
            token,
            audience,
            validate_nbf,
            stage,
            event,
            now,
            after@,
            next,
            action,
        ),
        after@.same_setup(before@),
{
}

/// Claims that are those of the token never end a login. Without a license the credentials are written
/// at once, with the email of the claims, and the user is told so. Claims that are not those of the
/// token end it.
pub proof fn law_claims_let_logins_go_on(
    session: Session,
    tokens: TokenResponse,
    payload: Vec<u8>,
    claims: IdTokenClaims,
    at: Moment,
    r: LoginStep,
)
    requires
        login_step(
            Login::ReadingClaims { session, tokens, payload },
            LoginEvent::Claims(claims),
            at,
            r,
        ),
    ensures
        r.action is Fail <==> !(json_parse(payload@) matches Some(carried) && claims.reads(carried)),
        r.action is Fail ==> r.action == LoginAction::Fail(LoginError::IdToken(VerifyError::Unread))
            && r.next is Ended && r.lines@.len() == 0,
        !(r.action is Fail) && tokens.mcpg_license_jwt is None ==> {
            &&& r.next is Saving
            &&& r.action matches LoginAction::Save(creds) && creds.email.deep_view()
                == claims.email.deep_view() && holds_tokens(creds, tokens) && creds.stored_at == at.wall
            &&& r.lines@.len() == 1
            &&& r.lines@[0] matches Line::Out(a) && a@
                == "  · provider returned no MCPG license — using id_token only"@
        },
        !(r.action is Fail) && tokens.mcpg_license_jwt is Some ==> licensed_step(
            session,
            tokens,
            claims.email,
            tokens.mcpg_license_jwt->0,
            KeyStage::Start,
            KeyEvent::Begin,
            at,
            r,
        ),
{
    law_lines_are_seen_whole(r.lines@);
    if !(r.action is Fail) && tokens.mcpg_license_jwt is Some {
        lemma_licensed_step(
            session,
            tokens,
            claims.email,
            tokens.mcpg_license_jwt->0,
            KeyStage::Start,
            KeyEvent::Begin,
            at,
            r,
        );
    }
}

/// Whether a step is one in the check of a license, as a token for the control plane that is in its
/// time: the login asks for what the check asks for, reads the license once it passed, and where the
/// check refuses it says so and writes the credentials.
pub open spec fn licensed_step(
    session: Session,
    tokens: TokenResponse,
    email: Option<String>,
    license: String,
    stage: KeyStage,
    key: KeyEvent,
    at: Moment,
    r: LoginStep,
) -> bool {
    exists|client: OidcClient, next: KeyStage, action: VerifyAction|
        {
            &&& #[trigger] token_step(
                session.client,
                license@,
                seq!["mcpg-cp"@],
                true,
                stage,
                key,
                at,
                client,
                next,
                action,
            )
            &&& action matches VerifyAction::FetchDiscovery(url) ==> r.action
                == LoginAction::FetchDiscovery(url)
            &&& action matches VerifyAction::FetchJwks(url) ==> r.action == LoginAction::FetchJwks(url)
            &&& action is FetchDiscovery || action is FetchJwks ==> r.lines@.len() == 0 && r.next == (
            Login::Licensing {
                session: Session { client, ..session },
                tokens,
                email,
                license,
                stage: next,
            })
            &&& action matches VerifyAction::Verified(payload) ==> r.lines@.len() == 0 && r.next == (
            Login::ReadingLicense { session: Session { client, ..session }, tokens, email })
                && r.action == LoginAction::ReadLicense(payload)
            &&& action matches VerifyAction::Fail(e) ==> {
                &&& stores(session, tokens, email, at, r)
                &&& r.lines@[0] matches Line::Note(a) && a@ == "  ! license verify failed: "@
                    + verify_message(e@)
            }
        }
}

/// Whether a step writes the credentials of a session, after one line.
pub open spec fn stores(
    session: Session,
    tokens: TokenResponse,
    email: Option<String>,
    at: Moment,
    r: LoginStep,
) -> bool {
    &&& r.next is Saving
    &&& r.lines@.len() == 1
    &&& r.action matches LoginAction::Save(creds) && {
        &&& holds_tokens(creds, tokens)
        &&& creds.email.deep_view() == email.deep_view()
        &&& creds.issuer@ == session.client@.issuer
        &&& creds.client_id@ == session.client@.client_id
        &&& creds.stored_at == at.wall
    }
}

proof fn lemma_licensed_step(
    session: Session,
    tokens: TokenResponse,
    email: Option<String>,
    license: String,
    stage: KeyStage,
    key: KeyEvent,
    at: Moment,
    r: LoginStep,
)
    requires
        licensing(session, tokens, email, license, stage, key, at, r),
    ensures
        licensed_step(session, tokens, email, license, stage, key, at, r),
        !(r.action is Fail),
{
    law_lines_are_seen_whole(r.lines@);
}

/// The check of a license goes on as the one of an identity token does, but refuses nothing: whatever
/// becomes of the license, the credentials are written, and the user is told what became of it.
pub proof fn law_licenses(
    session: Session,
    tokens: TokenResponse,
    email: Option<String>,
    license: String,
    stage: KeyStage,
    event: LoginEvent,
    at: Moment,
    r: LoginStep,
)
    requires
        login_step(Login::Licensing { session, tokens, email, license, stage }, event, at, r),
        event is Key || event is Failed,
    ensures
        event matches LoginEvent::Key(key) ==> licensed_step(
            session,
            tokens,
            email,
            license,
            stage,
            key,
            at,
            r,
        ),
        event matches LoginEvent::Failed(e) ==> stores(session, tokens, email, at, r) && (
        r.lines@[0] matches Line::Note(a) && a@ == "  ! license verify failed: "@ + e@),
{
    law_lines_are_seen_whole(r.lines@);
    if let LoginEvent::Key(key) = event {
        lemma_licensed_step(session, tokens, email, license, stage, key, at, r);
    }
}

/// A license that was read is shown by its plan and its tenant; one that cannot be read by why. Either
/// way the credentials are written.
pub proof fn law_licenses_are_shown(
    session: Session,
    tokens: TokenResponse,
    email: Option<String>,
    event: LoginEvent,
    at: Moment,
    r: LoginStep,
)
    requires
        login_step(Login::ReadingLicense { session, tokens, email }, event, at, r),
        event is License || event is Failed,
    ensures
        stores(session, tokens, email, at, r),
        event matches LoginEvent::License(preview) ==> (r.lines@[0] matches Line::Out(a) && a@
            == "  ✓ license:   plan="@ + preview.plan@ + " tenant="@ + preview.tenant_slug@),
        event matches LoginEvent::Failed(e) ==> (r.lines@[0] matches Line::Note(a) && a@
            == "  ! license verify failed: "@ + e@),
{
    law_lines_are_seen_whole(r.lines@);
}

/// A login is done once its credentials are written, and then it says where.
pub proof fn law_logins_end(flow: Login, event: LoginEvent, at: Moment, r: LoginStep)
    requires
        login_step(flow, event, at, r),
    ensures
        r.action is Done <==> flow is Saving && event is Saved,
        flow is Saving ==> (event matches LoginEvent::Saved(path) ==> {
            &&& r.next is Ended
            &&& r.lines@.len() == 1
            &&& r.lines@[0] matches Line::Out(a) && a@
                == "  ✓ Signed in. Credentials written to "@ + path@
        }),
        r.action is Fail ==> r.next is Ended && r.lines@.len() == 0,
        r.next is Ended <==> r.action is Fail || r.action is Done,
{
    if flow is Saving && event is Saved {
        law_lines_are_seen_whole(r.lines@);
    }
}

/// What fails on the way ends the login with its own error: a refusal of the token endpoint, a failure
/// while the identity token is checked or read, and any other.
pub proof fn law_failures(flow: Login, event: LoginEvent, at: Moment, r: LoginStep)
    requires
        login_step(flow, event, at, r),
    ensures
        flow is Exchanging ==> (event matches LoginEvent::Refused(body) ==> r.action
            == LoginAction::Fail(LoginError::TokenEndpoint(body))),
        flow is Verifying || flow is ReadingClaims ==> (event matches LoginEvent::Failed(e) ==> r.action
            == LoginAction::Fail(LoginError::IdTokenCheck(e))),
        flow is Start || flow is Binding || flow is Discovering || flow is Opening || flow is Waiting
            || flow is Exchanging || flow is Saving ==> (event matches LoginEvent::Failed(e)
            ==> r.action == LoginAction::Fail(LoginError::Outside(e))),
{
}

/// An event belongs to certain points of a login and ends it at every other.
pub proof fn law_login_events_have_their_turn(
    flow: Login,
    event: LoginEvent,
    at: Moment,
    r: LoginStep,
)
    requires
        login_step(flow, event, at, r),
    ensures
        r.action == LoginAction::Fail(LoginError::OutOfTurn) <==> !{
            ||| flow is Start && event is Begin
            ||| flow is Binding && event is Bound
            ||| flow is Discovering && event is Discovered
            ||| flow is Opening && (event is BrowserOpened || event is BrowserFailed)
            ||| flow is Waiting && event is Callback
            ||| flow is Exchanging && (event is Exchanged || event is Refused)
            ||| flow is Verifying && event is Key
            ||| flow is ReadingClaims && event is Claims
            ||| flow is Licensing && event is Key
            ||| flow is ReadingLicense && event is License
            ||| flow is Saving && event is Saved
            ||| !(flow is Ended) && event is Failed
        },
{
}

/// The message of an error is what the error holds, after what failed where that is not said there.
pub proof fn law_login_messages(text: String, e: VerifyError)
    ensures
        login_message(LoginError::Issuer(text)) == text@,
        login_message(LoginError::AuthorizeUrl(text)) == text@,
        login_message(LoginError::Outside(text)) == text@,
        login_message(LoginError::TokenEndpoint(text)) == "token endpoint: "@ + text@,
        login_message(LoginError::IdTokenCheck(text)) == "verify id_token: "@ + text@,
        login_message(LoginError::IdToken(e)) == "verify id_token: "@ + verify_message(e@),
{
}

/// What a slot takes of what is offered, given whether it is open.
pub open spec fn slot_takes(open: bool, params: CallbackParams) -> Option<CallbackParams> {
    if open {
        Some(params)
    } else {
        None
    }
}

/// A slot takes the first redirect that is offered as it is, whatever it brings, and no other.
pub proof fn law_first_redirects_count(first: CallbackParams, second: CallbackParams)
    ensures
        slot_takes(true, first) == Some(first),
        slot_takes(false, second) is None,
{
}

/// Whether a logout removes the credentials, and what is printed.
pub open spec fn logged_out(exists_now: bool, path: Seq<char>) -> (bool, Seq<char>) {
    if exists_now {
        (true, "✓ Removed "@ + path)
    } else {
        (false, "· No stored credentials at "@ + path)
    }
}

/// A logout removes the credentials if and only if they are there, and says which file it is about.
pub proof fn law_logouts(exists_now: bool, path: Seq<char>)
    ensures
        logged_out(exists_now, path).0 == exists_now,
        exists_now ==> logged_out(exists_now, path).1 == "✓ Removed "@ + path,
        !exists_now ==> logged_out(exists_now, path).1 == "· No stored credentials at "@ + path,
{
}

} // verus!
