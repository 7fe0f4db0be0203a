//! The renewal of a stored login before a call.
//!
//! A login whose identity token is over, or nearly, is renewed with its refresh token. The refresh
//! token lives long, so it is sent over a transport that others cannot read, or not at all.

use vstd::prelude::*;

use crate::clock::Timestamp;
use crate::credentials::{CredentialsView, StoredCredentials};
use crate::json::{json_parse, parse_json, tree_get, tree_get_str, Json, JsonNumber, JsonTree};
use crate::jwt::{payload_of, token_claims};
use crate::link::{parse_link, url_parse, Link, LinkView};
use crate::oidc::{issuer_name, pair, well_known, well_known_url};
use crate::text::same;

verus! {

/// The seconds that an identity token has left at least where it is not renewed: one with less to live
/// is.
pub const REFRESH_SKEW_SECS: i64 = 60;

/// The time at which claims end, in seconds since the epoch: `exp`, which is a number, held to the
/// range of `i64`.
pub open spec fn expiry_of(claims: JsonTree) -> Option<i64> {
    match tree_get(claims, "exp"@) {
        Some(JsonTree::Number(JsonNumber::Unsigned(n))) => Some(
            if n <= i64::MAX {
                n as i64
            } else {
                i64::MAX
            },
        ),
        Some(JsonTree::Number(JsonNumber::Negative(n))) => Some(n),
        Some(JsonTree::Number(JsonNumber::Fractional(n))) => Some(n),
        _ => None,
    }
}

/// The time at which a token says that it ends.
pub open spec fn token_expiry(token: Seq<char>) -> Option<i64> {
    match token_claims(token) {
        Some(claims) => expiry_of(claims),
        None => None,
    }
}

/// The time at which a token says that it ends. Nothing of the token is checked.
pub fn id_token_expiry(token: &str) -> (r: Option<i64>)
    ensures
        r == token_expiry(token@),
{
    let bytes = match payload_of(token) {
        Some(bytes) => bytes,
        None => {
            return None;
        },
    };
    match parse_json(bytes.as_slice()) {
        Some(claims) => claims_expiry(&claims),
        None => None,
    }
}

/// The time at which claims end.
pub fn claims_expiry(claims: &Json) -> (r: Option<i64>)
    ensures
        r == expiry_of(claims@),
{
    match claims.get("exp") {
        Some(Json::Number(JsonNumber::Unsigned(n))) => Some(
            if *n <= i64::MAX as u64 {
                *n as i64
            } else {
                i64::MAX
            },
        ),
        Some(Json::Number(JsonNumber::Negative(n))) => Some(*n),
        Some(Json::Number(JsonNumber::Fractional(n))) => Some(*n),
        _ => None,
    }
}

/// Whether a token that ends at the given time is left as it is.
pub open spec fn is_fresh(expiry: Option<i64>, now: i64) -> bool {
    expiry matches Some(exp) && exp - now >= REFRESH_SKEW_SECS
}

/// Whether a token that ends at the given time is left as it is.
pub fn still_fresh(expiry: Option<i64>, now: i64) -> (r: bool)
    ensures
        r == is_fresh(expiry, now),
{
    match expiry {
        Some(exp) => exp as i128 - now as i128 >= REFRESH_SKEW_SECS as i128,
        None => false,
    }
}

/// Whether a host is the machine itself. A host that is an IPv6 address stands in brackets.
pub open spec fn is_loopback(host: Option<Seq<char>>) -> bool {
    ||| host == Some("localhost"@)
    ||| host == Some("127.0.0.1"@)
    ||| host == Some("[::1]"@)
}

/// Whether a refresh token may be sent to a URL: over `https`, or to the machine itself. What is no
/// URL is let through, since nothing can be sent to it.
pub open spec fn may_send_to(url: Result<LinkView, Seq<char>>) -> bool {
    match url {
        Ok(link) => link.scheme == "https"@ || is_loopback(link.host),
        Err(_) => true,
    }
}

/// Whether a refresh token may be sent to a URL.
pub fn transport_ok(link: &Result<Link, String>) -> (r: bool)
    ensures
        r == may_send_to(
            match *link {
                Ok(l) => Ok(l@),
                Err(e) => Err(e@),
            },
        ),
{
    match link {
        Ok(l) => {
            let loopback = match &l.host {
                Some(h) => same(h.as_str(), "localhost") || same(h.as_str(), "127.0.0.1") || same(
                    h.as_str(),
                    "[::1]",
                ),
                None => false,
            };
            same(l.scheme.as_str(), "https") || loopback
        },
        Err(_) => true,
    }
}

/// The fields of the form that redeems a refresh token.
pub open spec fn refresh_fields(refresh_token: Seq<char>, client_id: Seq<char>) -> Seq<
    (Seq<char>, Seq<char>),
> {
    seq![
        ("grant_type"@, "refresh_token"@),
        ("refresh_token"@, refresh_token),
        ("client_id"@, client_id),
    ]
}

/// The form that redeems a refresh token.
pub fn refresh_form(refresh_token: &str, client_id: &str) -> (r: Vec<(String, String)>)
    ensures
        r.deep_view() == refresh_fields(refresh_token@, client_id@),
{
    let r = vec![
        pair("grant_type", "refresh_token"),
        pair("refresh_token", refresh_token),
        pair("client_id", client_id),
    ];
    assert(r.deep_view() =~= refresh_fields(refresh_token@, client_id@));
    r
}

/// The credentials after a renewal: the tokens of the answer in place of those that it renews.
/// There is none without a new identity token.
pub open spec fn rotated(creds: CredentialsView, answer: JsonTree, now: Timestamp) -> Option<
    CredentialsView,
> {
    match tree_get_str(answer, "id_token"@) {
        Some(id_token) => Some(
            CredentialsView {
                id_token,
                access_token: match tree_get_str(answer, "access_token"@) {
                    Some(t) => t,
                    None => creds.access_token,
                },
                refresh_token: match tree_get_str(answer, "refresh_token"@) {
                    Some(t) => Some(t),
                    None => creds.refresh_token,
                },
                stored_at: now,
                ..creds
            },
        ),
        None => None,
    }
}

/// The credentials after a renewal.
pub fn rotate(creds: StoredCredentials, answer: &Json, now: Timestamp) -> (r: Option<
    StoredCredentials,
>)
    ensures
        match r {
            Some(c) => rotated(creds@, answer@, now) == Some(c@),
            None => rotated(creds@, answer@, now) is None,
        },
{
    let id_token = match answer.get_str("id_token") {
        Some(t) => t.to_owned(),
        None => {
            return None;
        },
    };
    let access_token = match answer.get_str("access_token") {
        Some(t) => t.to_owned(),
        None => creds.access_token,
    };
    let refresh_token = match answer.get_str("refresh_token") {
        Some(t) => Some(t.to_owned()),
        None => creds.refresh_token,
    };
    Some(
        StoredCredentials {
            issuer: creds.issuer,
            client_id: creds.client_id,
            id_token,
            access_token,
            refresh_token,
            license_jwt: creds.license_jwt,
            email: creds.email,
            stored_at: now,
        },
    )
}

/// How far a renewal is.
pub enum Refresh {
    /// Nothing was read yet.
    Start,
    /// What the issuer publishes of itself is being fetched.
    Discovering(StoredCredentials),
    /// The refresh token was sent.
    Redeeming(StoredCredentials),
    /// The new credentials are being written.
    Saving,
    /// The renewal is over.
    Ended,
}

/// What happened in a renewal.
pub enum RefreshEvent {
    /// The stored credentials were read, or there are none that can be read.
    Loaded { creds: Option<StoredCredentials>, now: i64 },
    /// The issuer answered with what it publishes of itself.
    Discovered(Vec<u8>),
    /// The token endpoint refused the refresh token.
    Rejected,
    /// The token endpoint answered.
    Replied { body: Vec<u8>, wall: Timestamp },
    /// The new credentials were written.
    Saved,
}

/// What to do next in a renewal.
pub enum RefreshAction {
    /// Fetch what the issuer publishes of itself.
    Discover(String),
    /// Send the form to the token endpoint.
    Redeem { endpoint: String, form: Vec<(String, String)> },
    /// Write the new credentials.
    Save(StoredCredentials),
    /// The renewal is over; it tells whether the login was renewed.
    Done(bool),
    /// The renewal is over, and the login was not renewed: the token endpoint is reached over a
    /// transport that others can read.
    Refuse(String),
    /// The renewal failed.
    Fail(RefreshError),
}

/// Why a renewal failed.
#[derive(Clone, Copy, Debug, PartialEq, Eq, Structural)]
pub enum RefreshError {
    /// What the issuer publishes of itself is not JSON.
    Discovery,
    /// What the issuer publishes of itself names no token endpoint.
    NoTokenEndpoint,
    /// The answer of the token endpoint is not JSON.
    Answer,
    /// The event does not belong here.
    OutOfTurn,
}

impl RefreshError {
    /// The text of the error.
    pub fn message(&self) -> (r: String)
        ensures
            r@ == match *self {
                RefreshError::Discovery => "error decoding response body"@,
                RefreshError::NoTokenEndpoint => "issuer discovery has no token_endpoint"@,
                RefreshError::Answer => "error decoding response body"@,
                RefreshError::OutOfTurn => "event out of turn"@,
            },
            r@ == refresh_message(*self),
    {
        match self {
            RefreshError::Discovery => "error decoding response body".to_owned(),
            RefreshError::NoTokenEndpoint => "issuer discovery has no token_endpoint".to_owned(),
            RefreshError::Answer => "error decoding response body".to_owned(),
            RefreshError::OutOfTurn => "event out of turn".to_owned(),
        }
    }
}

/// A `Refresh`, with text as character sequences.
pub enum RefreshView {
    Start,
    Discovering(CredentialsView),
    Redeeming(CredentialsView),
    Saving,
    Ended,
}

impl View for Refresh {
    type V = RefreshView;

    open spec fn view(&self) -> RefreshView {
        match *self {
            Refresh::Start => RefreshView::Start,
            Refresh::Discovering(creds) => RefreshView::Discovering(creds@),
            Refresh::Redeeming(creds) => RefreshView::Redeeming(creds@),
            Refresh::Saving => RefreshView::Saving,
            Refresh::Ended => RefreshView::Ended,
        }
    }
}

/// A `RefreshEvent`, with text as character sequences.
pub enum RefreshEventView {
    Loaded { creds: Option<CredentialsView>, now: i64 },
    Discovered(Seq<u8>),
    Rejected,
    Replied { body: Seq<u8>, wall: Timestamp },
    Saved,
}

impl View for RefreshEvent {
    type V = RefreshEventView;

    open spec fn view(&self) -> RefreshEventView {
        match *self {
            RefreshEvent::Loaded { creds, now } => RefreshEventView::Loaded {
                creds: match creds {
                    Some(c) => Some(c@),
                    None => None,
                },
                now,
            },
            RefreshEvent::Discovered(body) => RefreshEventView::Discovered(body@),
            RefreshEvent::Rejected => RefreshEventView::Rejected,
            RefreshEvent::Replied { body, wall } => RefreshEventView::Replied { body: body@, wall },
            RefreshEvent::Saved => RefreshEventView::Saved,
        }
    }
}

/// A `RefreshAction`, with text as character sequences.
pub enum RefreshActionView {
    Discover(Seq<char>),
    Redeem { endpoint: Seq<char>, form: Seq<(Seq<char>, Seq<char>)> },
    Save(CredentialsView),
    Done(bool),
    Refuse(Seq<char>),
    Fail(RefreshError),
}

impl View for RefreshAction {
    type V = RefreshActionView;

    open spec fn view(&self) -> RefreshActionView {
        match *self {
            RefreshAction::Discover(url) => RefreshActionView::Discover(url@),
            RefreshAction::Redeem { endpoint, form } => RefreshActionView::Redeem {
                endpoint: endpoint@,
                form: form.deep_view(),
            },
            RefreshAction::Save(creds) => RefreshActionView::Save(creds@),
            RefreshAction::Done(renewed) => RefreshActionView::Done(renewed),
            RefreshAction::Refuse(endpoint) => RefreshActionView::Refuse(endpoint@),
            RefreshAction::Fail(e) => RefreshActionView::Fail(e),
        }
    }
}

/// What follows when stored credentials are read whose identity token ends at the given time: nothing
/// where the token is fresh or there is no refresh token.
pub open spec fn after_load(creds: CredentialsView, expiry: Option<i64>, now: i64) -> (
    RefreshView,
    RefreshActionView,
) {
    if is_fresh(expiry, now) || creds.refresh_token is None {
        (RefreshView::Ended, RefreshActionView::Done(false))
    } else {
        (RefreshView::Discovering(creds), RefreshActionView::Discover(well_known(creds.issuer)))
    }
}

/// What follows when stored credentials are read whose identity token ends at the given time.
pub fn on_load(creds: StoredCredentials, expiry: Option<i64>, now: i64) -> (r: (
    Refresh,
    RefreshAction,
))
    ensures
        (r.0@, r.1@) == after_load(creds@, expiry, now),
{
    if still_fresh(expiry, now) || creds.refresh_token.is_none() {
        (Refresh::Ended, RefreshAction::Done(false))
    } else {
        let url = well_known_url(creds.issuer.as_str());
        (Refresh::Discovering(creds), RefreshAction::Discover(url))
    }
}

/// What follows when the token endpoint is known, and what it is as a URL.
pub open spec fn after_endpoint(
    creds: CredentialsView,
    endpoint: Seq<char>,
    url: Result<LinkView, Seq<char>>,
) -> (RefreshView, RefreshActionView) {
    match creds.refresh_token {
        None => (RefreshView::Ended, RefreshActionView::Done(false)),
        Some(refresh_token) => if may_send_to(url) {
            (
                RefreshView::Redeeming(creds),
                RefreshActionView::Redeem {
                    endpoint,
                    form: refresh_fields(refresh_token, creds.client_id),
                },
            )
        } else {
            (RefreshView::Ended, RefreshActionView::Refuse(endpoint))
        },
    }
}

/// What follows when the token endpoint is known, and what it is as a URL.
pub fn on_endpoint(creds: StoredCredentials, endpoint: &str, link: &Result<Link, String>) -> (r: (
    Refresh,
    RefreshAction,
))
    ensures
        (r.0@, r.1@) == after_endpoint(
            creds@,
            endpoint@,
            match *link {
                Ok(l) => Ok(l@),
                Err(e) => Err(e@),
            },
        ),
{
    let form = match &creds.refresh_token {
        Some(refresh_token) => refresh_form(refresh_token.as_str(), creds.client_id.as_str()),
        None => {
            return (Refresh::Ended, RefreshAction::Done(false));
        },
    };
    if transport_ok(link) {
        (
            Refresh::Redeeming(creds),
            RefreshAction::Redeem { endpoint: endpoint.to_owned(), form },
        )
    } else {
        (Refresh::Ended, RefreshAction::Refuse(endpoint.to_owned()))
    }
}

/// What follows when the issuer answered with what it publishes of itself.
pub open spec fn after_discovery(creds: CredentialsView, doc: Option<JsonTree>) -> (
    RefreshView,
    RefreshActionView,
) {
    match doc {
        None => (RefreshView::Ended, RefreshActionView::Fail(RefreshError::Discovery)),
        Some(doc) => match tree_get_str(doc, "token_endpoint"@) {
            None => (RefreshView::Ended, RefreshActionView::Fail(RefreshError::NoTokenEndpoint)),
            Some(endpoint) => after_endpoint(creds, endpoint, url_parse(endpoint)),
        },
    }
}

/// What follows when the issuer answered with what it publishes of itself.
pub fn on_discovery(creds: StoredCredentials, doc: &Json) -> (r: (Refresh, RefreshAction))
    ensures
        (r.0@, r.1@) == after_discovery(creds@, Some(doc@)),
{
    match doc.get_str("token_endpoint") {
        None => (Refresh::Ended, RefreshAction::Fail(RefreshError::NoTokenEndpoint)),
        Some(endpoint) => {
            let link = parse_link(endpoint);
            on_endpoint(creds, endpoint, &link)
        },
    }
}

/// What follows when the token endpoint answered: without a new identity token the login stays as it
/// is.
pub open spec fn after_answer(creds: CredentialsView, answer: Option<JsonTree>, now: Timestamp) -> (
    RefreshView,
    RefreshActionView,
) {
    match answer {
        None => (RefreshView::Ended, RefreshActionView::Fail(RefreshError::Answer)),
        Some(answer) => match rotated(creds, answer, now) {
            None => (RefreshView::Ended, RefreshActionView::Done(false)),
            Some(creds) => (RefreshView::Saving, RefreshActionView::Save(creds)),
        },
    }
}

/// One step in a renewal.
pub open spec fn refresh_step(s: RefreshView, event: RefreshEventView) -> (
    RefreshView,
    RefreshActionView,
) {
    match (s, event) {
        (RefreshView::Start, RefreshEventView::Loaded { creds: None, now }) => (
            RefreshView::Ended,
            RefreshActionView::Done(false),
        ),
        (RefreshView::Start, RefreshEventView::Loaded { creds: Some(creds), now }) => after_load(
            creds,
            token_expiry(creds.id_token),
            now,
        ),
        (RefreshView::Discovering(creds), RefreshEventView::Discovered(body)) => after_discovery(
            creds,
            json_parse(body),
        ),
        (RefreshView::Redeeming(creds), RefreshEventView::Rejected) => (
            RefreshView::Ended,
            RefreshActionView::Done(false),
        ),
        (RefreshView::Redeeming(creds), RefreshEventView::Replied { body, wall }) => after_answer(
            creds,
            json_parse(body),
            wall,
        ),
        (RefreshView::Saving, RefreshEventView::Saved) => (
            RefreshView::Ended,
            RefreshActionView::Done(true),
        ),
        _ => (RefreshView::Ended, RefreshActionView::Fail(RefreshError::OutOfTurn)),
    }
}

/// Takes one step in the renewal of a stored login.
pub fn ensure_fresh(refresh: Refresh, event: RefreshEvent) -> (r: (Refresh, RefreshAction))
    ensures
        (r.0@, r.1@) == refresh_step(refresh@, event@),
{
    match (refresh, event) {
        (Refresh::Start, RefreshEvent::Loaded { creds, now }) => match creds {
            None => (Refresh::Ended, RefreshAction::Done(false)),
            Some(creds) => {
                let expiry = id_token_expiry(creds.id_token.as_str());
                on_load(creds, expiry, now)
            },
        },
        (Refresh::Discovering(creds), RefreshEvent::Discovered(body)) => {
            match parse_json(body.as_slice()) {
                None => (Refresh::Ended, RefreshAction::Fail(RefreshError::Discovery)),
                Some(doc) => on_discovery(creds, &doc),
            }
        },
        (Refresh::Redeeming(_), RefreshEvent::Rejected) => {
            (Refresh::Ended, RefreshAction::Done(false))
        },
        (Refresh::Redeeming(creds), RefreshEvent::Replied { body, wall }) => {
            match parse_json(body.as_slice()) {
                None => (Refresh::Ended, RefreshAction::Fail(RefreshError::Answer)),
                Some(answer) => match rotate(creds, &answer, wall) {
                    None => (Refresh::Ended, RefreshAction::Done(false)),
                    Some(creds) => (Refresh::Saving, RefreshAction::Save(creds)),
                },
            }
        },
        (Refresh::Saving, RefreshEvent::Saved) => (Refresh::Ended, RefreshAction::Done(true)),
        _ => (Refresh::Ended, RefreshAction::Fail(RefreshError::OutOfTurn)),
    }
}

/// How far a renewal is after the given events.
pub open spec fn refresh_after(events: Seq<RefreshEventView>) -> RefreshView
    decreases events.len(),
{
    if events.len() == 0 {
        RefreshView::Start
    } else {
        refresh_step(refresh_after(events.drop_last()), events.last()).0
    }
}

/// What is done on the last of the given events.
pub open spec fn refresh_action(events: Seq<RefreshEventView>) -> RefreshActionView {
    refresh_step(refresh_after(events.drop_last()), events.last()).1
}

/// Whether `creds` were loaded first, and were due to be renewed and could be.
pub open spec fn loaded_stale(events: Seq<RefreshEventView>, creds: CredentialsView) -> bool {
    &&& events.len() > 0
    &&& events[0] matches RefreshEventView::Loaded { creds: loaded, now } && loaded == Some(creds)
        && !is_fresh(token_expiry(creds.id_token), now)
    &&& creds.refresh_token is Some
}

proof fn lemma_refresh_holds_loaded(events: Seq<RefreshEventView>)
    ensures
        refresh_after(events) is Start ==> events.len() == 0,
        refresh_after(events) matches RefreshView::Discovering(creds) ==> loaded_stale(
            events,
            creds,
        ),
        refresh_after(events) matches RefreshView::Redeeming(creds) ==> loaded_stale(events, creds),
    decreases events.len(),
{
    if events.len() > 0 {
        let before = events.drop_last();
        lemma_refresh_holds_loaded(before);
        if before.len() > 0 {
            assert(before[0] == events[0]);
        } else {
            assert(events.last() == events[0]);
        }
    }
}

/// A login whose identity token has the given time left at least causes no request, and neither does
/// one without a refresh token, nor the absence of a login.
pub proof fn law_fresh_logins_are_left_alone(creds: Option<CredentialsView>, now: i64)
    requires
        creds matches Some(c) ==> is_fresh(token_expiry(c.id_token), now) || c.refresh_token is None,
    ensures
        refresh_step(RefreshView::Start, RefreshEventView::Loaded { creds, now }) == (
            RefreshView::Ended,
            RefreshActionView::Done(false),
        ),
{
}

/// Whatever happens, a refresh token is sent only where it may be sent, only to renew a login that
/// was due, and it is the token of that login that is sent.
pub proof fn law_refresh_tokens_are_sent_safely(events: Seq<RefreshEventView>)
    requires
        events.len() > 0,
    ensures
        refresh_action(events) matches RefreshActionView::Redeem { endpoint, form } ==> {
            &&& may_send_to(url_parse(endpoint))
            &&& exists|creds: CredentialsView| #[trigger]
                loaded_stale(events, creds) && form == refresh_fields(
                    creds.refresh_token->0,
                    creds.client_id,
                )
        },
{
    let before = events.drop_last();
    lemma_refresh_holds_loaded(before);
    if let RefreshView::Discovering(creds) = refresh_after(before) {
        assert(before[0] == events[0]);
        assert(loaded_stale(events, creds));
    }
}

/// Whatever happens, what is written is the login that was loaded, renewed: with a new identity token
/// and the time, the refresh token of old where the issuer gave none, and the rest as it was.
pub proof fn law_renewals_keep_the_login(events: Seq<RefreshEventView>)
    requires
        events.len() > 0,
    ensures
        refresh_action(events) matches RefreshActionView::Save(new) ==> exists|creds: CredentialsView|
            {
                &&& #[trigger] loaded_stale(events, creds)
                &&& events.last() matches RefreshEventView::Replied { body, wall } && json_parse(
                    body,
                ) is Some && rotated(creds, json_parse(body)->0, wall) == Some(new)
                &&& new.issuer == creds.issuer
                &&& new.client_id == creds.client_id
                &&& new.license_jwt == creds.license_jwt
                &&& new.email == creds.email
                &&& new.refresh_token is Some
            },
{
    let before = events.drop_last();
    lemma_refresh_holds_loaded(before);
    if let RefreshView::Redeeming(creds) = refresh_after(before) {
        assert(before[0] == events[0]);
        assert(loaded_stale(events, creds));
    }
}

/// A login is reported as renewed only after the new credentials were written, and then it is.
pub proof fn law_renewed_means_written(s: RefreshView, event: RefreshEventView)
    ensures
        refresh_step(s, event).1 == RefreshActionView::Done(true) <==> s is Saving
            && event is Saved,
        refresh_step(s, event).0 is Saving <==> refresh_step(s, event).1 is Save,
{
}

/// What a renewal writes is made of the answer's members one by one: its `id_token`; its
/// `access_token` and its `refresh_token` where they are strings, and else what the login had. Each
/// depends on its own member alone, and all else is as it was.
pub open spec fn is_renewal(
    new: CredentialsView,
    creds: CredentialsView,
    answer: JsonTree,
    wall: Timestamp,
) -> bool {
    &&& tree_get(answer, "id_token"@) == Some(JsonTree::Str(new.id_token))
    &&& match tree_get(answer, "access_token"@) {
        Some(JsonTree::Str(t)) => new.access_token == t,
        _ => new.access_token == creds.access_token,
    }
    &&& match tree_get(answer, "refresh_token"@) {
        Some(JsonTree::Str(t)) => new.refresh_token == Some(t),
        _ => new.refresh_token == creds.refresh_token,
    }
    &&& new.stored_at == wall
    &&& new.issuer == creds.issuer
    &&& new.client_id == creds.client_id
    &&& new.license_jwt == creds.license_jwt
    &&& new.email == creds.email
}

/// Credentials are renewed if and only if the answer has an ID token, and then each token is the
/// answer's where the answer has it, whatever else the answer has.
pub proof fn law_renewals(creds: CredentialsView, answer: JsonTree, now: Timestamp)
    ensures
        match rotated(creds, answer, now) {
            Some(new) => is_renewal(new, creds, answer, now),
            None => !(tree_get(answer, "id_token"@) matches Some(JsonTree::Str(_))),
        },
{
}

/// Two answers that agree on a token renew that token alike, for whatever login and at whatever time.
pub proof fn law_tokens_are_renewed_apart(
    creds: CredentialsView,
    a: JsonTree,
    b: JsonTree,
    at: Timestamp,
    later: Timestamp,
)
    requires
        rotated(creds, a, at) is Some,
        rotated(creds, b, later) is Some,
    ensures
        tree_get(a, "id_token"@) == tree_get(b, "id_token"@) ==> rotated(creds, a, at)->0.id_token
            == rotated(creds, b, later)->0.id_token,
        tree_get(a, "access_token"@) == tree_get(b, "access_token"@) ==> rotated(
            creds,
            a,
            at,
        )->0.access_token == rotated(creds, b, later)->0.access_token,
        tree_get(a, "refresh_token"@) == tree_get(b, "refresh_token"@) ==> rotated(
            creds,
            a,
            at,
        )->0.refresh_token == rotated(creds, b, later)->0.refresh_token,
{
}

/// Whatever happens, what is written is the login that was loaded first, with the tokens of the last
/// answer in place of its own.
pub proof fn law_written_tokens_are_the_answers(events: Seq<RefreshEventView>)
    requires
        events.len() > 0,
    ensures
        refresh_action(events) matches RefreshActionView::Save(new) ==> {
            &&& events[0] matches RefreshEventView::Loaded { creds: Some(creds), now }
            &&& events.last() matches RefreshEventView::Replied { body, wall }
            &&& json_parse(body) matches Some(answer)
            &&& is_renewal(new, creds, answer, wall)
        },
{
    let before = events.drop_last();
    lemma_refresh_holds_loaded(before);
    if let RefreshView::Redeeming(creds) = refresh_after(before) {
        assert(before[0] == events[0]);
    }
}

/// Claims end at the number that is their `exp`: an integer as it is, within the range of times.
/// Anything else is no end.
pub proof fn law_claims_end(claims: JsonTree, n: u64, i: i64)
    ensures
        tree_get(claims, "exp"@) == Some(JsonTree::Number(JsonNumber::Unsigned(n))) && n <= i64::MAX
            ==> (expiry_of(claims) matches Some(e) && e == n),
        tree_get(claims, "exp"@) == Some(JsonTree::Number(JsonNumber::Unsigned(n))) && n > i64::MAX
            ==> expiry_of(claims) == Some(i64::MAX),
        tree_get(claims, "exp"@) == Some(JsonTree::Number(JsonNumber::Negative(i))) ==> expiry_of(
            claims,
        ) == Some(i),
        tree_get(claims, "exp"@) == Some(JsonTree::Number(JsonNumber::Fractional(i))) ==> expiry_of(
            claims,
        ) == Some(i),
        expiry_of(claims) is None <==> !(tree_get(claims, "exp"@) matches Some(
            JsonTree::Number(_),
        )),
{
}

/// A token ends when the claims that it carries do; one that carries none has no end.
pub proof fn law_tokens_end(token: Seq<char>)
    ensures
        token_claims(token) matches Some(claims) ==> token_expiry(token) == expiry_of(claims),
        token_claims(token) is None ==> token_expiry(token) is None,
{
}

/// A token is left alone from when it is issued until a minute before it ends, and not after.
pub proof fn law_freshness(exp: i64, now: i64, later: i64)
    ensures
        !is_fresh(None, now),
        is_fresh(Some(exp), now) <==> now + 60 <= exp,
        now <= later && is_fresh(Some(exp), later) ==> is_fresh(Some(exp), now),
{
}

/// A refresh token goes over `https` to every host, and over anything else to the machine itself
/// alone.
pub proof fn law_transports(link: LinkView, error: Seq<char>)
    ensures
        link.scheme == "https"@ ==> may_send_to(Ok(link)),
        link.scheme != "https"@ ==> (may_send_to(Ok(link)) <==> (link.host matches Some(h) && (h
            == "localhost"@ || h == "127.0.0.1"@ || h == "[::1]"@))),
        may_send_to(Err(error)),
{
}

/// The form that redeems a refresh token has each of its fields once.
pub proof fn law_refresh_forms(refresh_token: Seq<char>, client_id: Seq<char>)
    ensures
        ({
            let form = refresh_fields(refresh_token, client_id);
            &&& form.len() == 3
            &&& form.contains(("grant_type"@, "refresh_token"@))
            &&& form.contains(("refresh_token"@, refresh_token))
            &&& form.contains(("client_id"@, client_id))
        }),
{
    let form = refresh_fields(refresh_token, client_id);
    assert(form[0] == ("grant_type"@, "refresh_token"@));
    assert(form[1] == ("refresh_token"@, refresh_token));
    assert(form[2] == ("client_id"@, client_id));
}

/// A login that is due and has a refresh token is renewed: the issuer is asked where tokens are
/// redeemed, the refresh token is redeemed there, and what comes back is written. Nothing else stops
/// it on the way.
pub proof fn law_due_logins_are_renewed(
    creds: CredentialsView,
    now: i64,
    body: Seq<u8>,
    endpoint: Seq<char>,
    reply: Seq<u8>,
    wall: Timestamp,
)
    requires
        !(token_expiry(creds.id_token) matches Some(exp) && now + 60 <= exp),
        creds.refresh_token is Some,
        json_parse(body) matches Some(doc) && tree_get(doc, "token_endpoint"@) == Some(
            JsonTree::Str(endpoint),
        ),
        may_send_to(url_parse(endpoint)),
        json_parse(reply) matches Some(answer) && tree_get(answer, "id_token"@) matches Some(
            JsonTree::Str(_),
        ),
    ensures
        ({
            let loaded = RefreshEventView::Loaded { creds: Some(creds), now };
            let discovered = RefreshEventView::Discovered(body);
            let replied = RefreshEventView::Replied { body: reply, wall };
            &&& refresh_action(seq![loaded]) == RefreshActionView::Discover(
                well_known(creds.issuer),
            )
            &&& refresh_action(seq![loaded, discovered]) matches RefreshActionView::Redeem {
                endpoint: to,
                form,
            } && to == endpoint && form == refresh_fields(creds.refresh_token->0, creds.client_id)
            &&& refresh_action(seq![loaded, discovered, replied]) matches RefreshActionView::Save(
                new,
            ) && is_renewal(new, creds, json_parse(reply)->0, wall)
            &&& refresh_action(seq![loaded, discovered, replied, RefreshEventView::Saved])
                == RefreshActionView::Done(true)
        }),
{
    let loaded = RefreshEventView::Loaded { creds: Some(creds), now };
    let discovered = RefreshEventView::Discovered(body);
    let replied = RefreshEventView::Replied { body: reply, wall };
    let none = Seq::<RefreshEventView>::empty();
    let one = seq![loaded];
    let two = seq![loaded, discovered];
    let three = seq![loaded, discovered, replied];
    let four = seq![loaded, discovered, replied, RefreshEventView::Saved];
    assert(one.drop_last() =~= none && one.last() == loaded);
    assert(two.drop_last() =~= one && two.last() == discovered);
    assert(three.drop_last() =~= two && three.last() == replied);
    assert(four.drop_last() =~= three && four.last() == RefreshEventView::Saved);
    assert(refresh_after(none) is Start);
    assert(refresh_after(one) == RefreshView::Discovering(creds));
    assert(refresh_after(two) == RefreshView::Redeeming(creds));
    assert(refresh_after(three) is Saving);
}

/// A renewal fails only on an answer that is no JSON, on an issuer that names no token endpoint, and
/// on an event out of turn. An endpoint over an open transport is refused, and an answer without an
/// ID token, or a refusal, leaves the login as it is.
pub proof fn law_renewals_that_stop(creds: CredentialsView, body: Seq<u8>, wall: Timestamp)
    ensures
        ({
            let found = refresh_step(
                RefreshView::Discovering(creds),
                RefreshEventView::Discovered(body),
            ).1;
            let doc = json_parse(body);
            &&& found == RefreshActionView::Fail(RefreshError::Discovery) <==> doc is None
            &&& found == RefreshActionView::Fail(RefreshError::NoTokenEndpoint) <==> (
            doc matches Some(v) && !(tree_get(v, "token_endpoint"@) matches Some(JsonTree::Str(_))))
            &&& creds.refresh_token is Some ==> (found is Refuse <==> (doc matches Some(v) && (
            tree_get(v, "token_endpoint"@) matches Some(JsonTree::Str(e)) && !may_send_to(
                url_parse(e),
            ))))
            &&& creds.refresh_token is None && !(found is Fail) ==> found == RefreshActionView::Done(
                false,
            )
            &&& found matches RefreshActionView::Refuse(e) ==> tree_get(doc->0, "token_endpoint"@)
                == Some(JsonTree::Str(e))
        }),
        ({
            let answered = refresh_step(
                RefreshView::Redeeming(creds),
                RefreshEventView::Replied { body, wall },
            ).1;
            let answer = json_parse(body);
            &&& answered == RefreshActionView::Fail(RefreshError::Answer) <==> answer is None
            &&& answered == RefreshActionView::Done(false) <==> (answer matches Some(v) && !(tree_get(
                v,
                "id_token"@,
            ) matches Some(JsonTree::Str(_))))
            &&& answered is Save <==> (answer matches Some(v) && (tree_get(v, "id_token"@) matches Some(
                JsonTree::Str(_),
            )))
        }),
        refresh_step(RefreshView::Redeeming(creds), RefreshEventView::Rejected).1
            == RefreshActionView::Done(false),
{
}

/// An event belongs to one point of a renewal and fails it at every other.
pub proof fn law_events_have_their_turn(s: RefreshView, event: RefreshEventView)
    ensures
        refresh_step(s, event).1 == RefreshActionView::Fail(RefreshError::OutOfTurn) <==> !{
            ||| s is Start && event is Loaded
            ||| s is Discovering && event is Discovered
            ||| s is Redeeming && (event is Rejected || event is Replied)
            ||| s is Saving && event is Saved
        },
        refresh_step(s, event).1 is Done || refresh_step(s, event).1 is Refuse || refresh_step(
            s,
            event,
        ).1 is Fail <==> refresh_step(s, event).0 is Ended,
{
}

/// What happens in a renewal and what it does are seen as they are, and so is a URL.
pub proof fn law_renewals_are_seen_whole(
    creds: StoredCredentials,
    link: Link,
    text: String,
    flag: bool,
    body: Vec<u8>,
    wall: Timestamp,
)
    ensures
        RefreshAction::Save(creds)@ == RefreshActionView::Save(creds@),
        RefreshAction::Discover(text)@ == RefreshActionView::Discover(text@),
        RefreshAction::Refuse(text)@ == RefreshActionView::Refuse(text@),
        RefreshAction::Done(flag)@ == RefreshActionView::Done(flag),
        (RefreshEvent::Loaded { creds: Some(creds), now: wall.secs })@ == (RefreshEventView::Loaded {
            creds: Some(creds@),
            now: wall.secs,
        }),
        (RefreshEvent::Loaded { creds: None, now: wall.secs })@ == (RefreshEventView::Loaded {
            creds: None,
            now: wall.secs,
        }),
        RefreshEvent::Discovered(body)@ == RefreshEventView::Discovered(body@),
        (RefreshEvent::Replied { body, wall })@ == (RefreshEventView::Replied { body: body@, wall }),
        RefreshEvent::Rejected@ == RefreshEventView::Rejected,
        RefreshEvent::Saved@ == RefreshEventView::Saved,
        Refresh::Discovering(creds)@ == RefreshView::Discovering(creds@),
        Refresh::Redeeming(creds)@ == RefreshView::Redeeming(creds@),
        link@.scheme == link.scheme@,
        link@.text == link.text@,
        link@.host is Some <==> link.host is Some,
        link.host matches Some(h) ==> link@.host == Some(h@),
{
}

/// The text of an error.
pub open spec fn refresh_message(e: RefreshError) -> Seq<char> {
    match e {
        RefreshError::Discovery => "error decoding response body"@,
        RefreshError::NoTokenEndpoint => "issuer discovery has no token_endpoint"@,
        RefreshError::Answer => "error decoding response body"@,
        RefreshError::OutOfTurn => "event out of turn"@,
    }
}

/// An answer that is no JSON has one message, whoever gave it; the other errors have messages of their
/// own.
pub proof fn law_refresh_messages(e: RefreshError)
    ensures
        refresh_message(e) == "error decoding response body"@ <==> e == RefreshError::Discovery || e
            == RefreshError::Answer,
        refresh_message(e) == "issuer discovery has no token_endpoint"@ <==> e
            == RefreshError::NoTokenEndpoint,
        refresh_message(e) == "event out of turn"@ <==> e == RefreshError::OutOfTurn,
{
    reveal_strlit("error decoding response body");
    reveal_strlit("issuer discovery has no token_endpoint");
    reveal_strlit("event out of turn");
    assert("error decoding response body"@.len() != "issuer discovery has no token_endpoint"@.len());
    assert("error decoding response body"@.len() != "event out of turn"@.len());
    assert("issuer discovery has no token_endpoint"@.len() != "event out of turn"@.len());
}

/// Loaded credentials are renewed if and only if they have a refresh token and their ID token ends within
/// a minute or says nothing of its end: the issuer is then asked about itself, and they are kept.
pub proof fn law_loads(creds: CredentialsView, expiry: Option<i64>, now: i64)
    ensures
        ({
            let (next, action) = after_load(creds, expiry, now);
            if creds.refresh_token is Some && (expiry matches Some(exp) ==> exp < now + 60) {
                &&& next == RefreshView::Discovering(creds)
                &&& action == RefreshActionView::Discover(
                    issuer_name(creds.issuer) + "/.well-known/openid-configuration"@,
                )
            } else {
                next is Ended && action == RefreshActionView::Done(false)
            }
        }),
{
}

/// A refresh token is redeemed at the endpoint, with the name of its client, wherever it may be sent
/// there, and else the endpoint is refused. The credentials are kept.
pub proof fn law_endpoints(
    creds: CredentialsView,
    endpoint: Seq<char>,
    url: Result<LinkView, Seq<char>>,
)
    ensures
        ({
            let (next, action) = after_endpoint(creds, endpoint, url);
            match creds.refresh_token {
                None => next is Ended && action == RefreshActionView::Done(false),
                Some(token) => if may_send_to(url) {
                    &&& next == RefreshView::Redeeming(creds)
                    &&& action matches RefreshActionView::Redeem { endpoint: to, form } && to
                        == endpoint && form.len() == 3 && form.contains(("refresh_token"@, token))
                        && form.contains(("client_id"@, creds.client_id)) && form.contains(
                        ("grant_type"@, "refresh_token"@),
                    )
                } else {
                    next is Ended && action == RefreshActionView::Refuse(endpoint)
                },
            }
        }),
{
    if let Some(token) = creds.refresh_token {
        law_refresh_forms(token, creds.client_id);
    }
}

/// The endpoint is the one that the issuer publishes, as the URL that it is.
pub proof fn law_published_endpoints(creds: CredentialsView, doc: JsonTree, endpoint: Seq<char>)
    ensures
        tree_get(doc, "token_endpoint"@) == Some(JsonTree::Str(endpoint)) ==> after_discovery(
            creds,
            Some(doc),
        ) == after_endpoint(creds, endpoint, url_parse(endpoint)),
        !(tree_get(doc, "token_endpoint"@) matches Some(JsonTree::Str(_))) ==> after_discovery(
            creds,
            Some(doc),
        ) == (RefreshView::Ended, RefreshActionView::Fail(RefreshError::NoTokenEndpoint)),
{
}

} // verus!
