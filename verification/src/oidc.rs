//! OpenID Connect client: discovery, PKCE, the token exchange, and the check of signed tokens.
//!
//! The client holds what it has learned of its issuer. It decides what is fetched and what is sent;
//! whoever runs it fetches and sends.

use vstd::prelude::*;
use vstd::utf8::encode_utf8;

use crate::clock::Moment;
use crate::codec::{
    base64url, base64url_decoded, digest_sha256, encode_base64url, is_base64url_char,
    law_decoding_undoes_encoding, lemma_base64url, random_bytes, sha256,
};
use crate::json::{
    find_member, json_of, json_parse, law_members_have_no_order, lemma_named, lemma_object_view,
    member, members_view, names_differ, same_json, tree_get, Json, JsonNumber, JsonTree,
};
use crate::jwt::{
    check_token, decoding_key, find_jwk, find_key, hold_to_policy, is_early, is_over, jwk_decoding_key,
    jwk_set_keys, jwks_parse, jwt_header, names_anyone, names_one_of, parse_jwks, passed_at,
    payload_of, read_header, refusal, says_when_over, token_check, token_claims, token_payload,
    TokenPolicy, TokenPolicyView,
};
use crate::link::{append_pairs, fits_url, parse_link, request_fits, url_parse, url_with_pairs};
use crate::text::{
    decimal, digits_string, join, joined, law_decimal_forms_read_back, law_trimming_the_end,
    lemma_decimal_injective, number_of, same, signed_string, trim, trim_end_matches, trim_end_of,
    trimmed,
};

verus! {

/// What an issuer publishes of itself.
#[derive(Debug)]
pub struct DiscoveryDoc {
    pub issuer: String,
    pub authorization_endpoint: String,
    pub token_endpoint: String,
    pub jwks_uri: String,
    pub userinfo_endpoint: Option<String>,
}

impl Clone for DiscoveryDoc {
    fn clone(&self) -> (r: Self)
        ensures
            r == *self,
    {
        DiscoveryDoc {
            issuer: self.issuer.clone(),
            authorization_endpoint: self.authorization_endpoint.clone(),
            token_endpoint: self.token_endpoint.clone(),
            jwks_uri: self.jwks_uri.clone(),
            userinfo_endpoint: self.userinfo_endpoint.clone(),
        }
    }
}

/// What a token endpoint answers.
#[derive(Debug)]
pub struct TokenResponse {
    pub access_token: String,
    pub id_token: String,
    pub refresh_token: Option<String>,
    pub token_type: Option<String>,
    pub expires_in: Option<i64>,
    /// The license token of the user's tenant, from issuers that give one.
    pub mcpg_license_jwt: Option<String>,
}

impl Clone for TokenResponse {
    fn clone(&self) -> (r: Self)
        ensures
            r == *self,
    {
        TokenResponse {
            access_token: self.access_token.clone(),
            id_token: self.id_token.clone(),
            refresh_token: self.refresh_token.clone(),
            token_type: self.token_type.clone(),
            expires_in: self.expires_in,
            mcpg_license_jwt: self.mcpg_license_jwt.clone(),
        }
    }
}

/// The claims of an identity token.
#[derive(Debug)]
pub struct IdTokenClaims {
    pub iss: String,
    pub sub: String,
    /// A string or a list of strings.
    pub aud: Json,
    pub exp: i64,
    pub iat: i64,
    pub email: Option<String>,
    pub email_verified: Option<bool>,
    pub name: Option<String>,
    pub preferred_username: Option<String>,
    pub nonce: Option<String>,
    /// Every claim that no field above holds.
    pub extra: Vec<(String, Json)>,
}

impl Clone for IdTokenClaims {
    fn clone(&self) -> (r: Self)
        ensures
            r.aud@ == self.aud@,
            members_view(r.extra@) == members_view(self.extra@),
            r == (IdTokenClaims { aud: r.aud, extra: r.extra, ..*self }),
    {
        let mut extra: Vec<(String, Json)> = Vec::new();
        let mut i: usize = 0;
        while i < self.extra.len()
            invariant
                i <= self.extra@.len(),
                extra@.len() == i,
                forall|k: int|
                    0 <= k < i ==> (#[trigger] extra@[k]).0@ == self.extra@[k].0@ && extra@[k].1@
                        == self.extra@[k].1@,
            decreases self.extra@.len() - i,
        {
            extra.push((self.extra[i].0.clone(), self.extra[i].1.clone()));
            i += 1;
        }
        assert(members_view(extra@) =~= members_view(self.extra@));
        IdTokenClaims {
            iss: self.iss.clone(),
            sub: self.sub.clone(),
            aud: self.aud.clone(),
            exp: self.exp,
            iat: self.iat,
            email: self.email.clone(),
            email_verified: self.email_verified,
            name: self.name.clone(),
            preferred_username: self.preferred_username.clone(),
            nonce: self.nonce.clone(),
            extra,
        }
    }
}

/// An optional text as a claim; `null` where there is none.
pub open spec fn text_claim(text: Option<String>) -> JsonTree {
    match text {
        Some(s) => JsonTree::Str(s@),
        None => JsonTree::Null,
    }
}

/// An optional flag as a claim; `null` where there is none.
pub open spec fn flag_claim(flag: Option<bool>) -> JsonTree {
    match flag {
        Some(b) => JsonTree::Bool(b),
        None => JsonTree::Null,
    }
}

/// An integer as a claim.
pub open spec fn integer_claim(n: i64) -> JsonTree {
    JsonTree::Number(
        if n < 0 {
            JsonNumber::Negative(n)
        } else {
            JsonNumber::Unsigned(n as u64)
        },
    )
}

/// The text that a claim stands for: a string without the white space around it where any is left,
/// an integer in decimal. No other claim stands for a text.
pub open spec fn claim_text(claim: JsonTree) -> Option<Seq<char>> {
    match claim {
        JsonTree::Str(s) => if trimmed(s).len() > 0 {
            Some(trimmed(s))
        } else {
            None
        },
        JsonTree::Number(JsonNumber::Unsigned(n)) => Some(decimal(n as int)),
        JsonTree::Number(JsonNumber::Negative(n)) => Some(decimal(n as int)),
        _ => None,
    }
}

impl IdTokenClaims {
    /// Whether no claim beside the fields comes twice.
    pub open spec fn well_formed(self) -> bool {
        names_differ(members_view(self.extra@))
    }

    /// The claim that a field holds, by its name in a token.
    pub open spec fn field_claim(self, name: Seq<char>) -> Option<JsonTree> {
        if name == "iss"@ {
            Some(JsonTree::Str(self.iss@))
        } else if name == "sub"@ {
            Some(JsonTree::Str(self.sub@))
        } else if name == "aud"@ {
            Some(self.aud@)
        } else if name == "exp"@ {
            Some(integer_claim(self.exp))
        } else if name == "iat"@ {
            Some(integer_claim(self.iat))
        } else if name == "email"@ {
            Some(text_claim(self.email))
        } else if name == "email_verified"@ {
            Some(flag_claim(self.email_verified))
        } else if name == "name"@ {
            Some(text_claim(self.name))
        } else if name == "preferred_username"@ {
            Some(text_claim(self.preferred_username))
        } else if name == "nonce"@ {
            Some(text_claim(self.nonce))
        } else {
            None
        }
    }

    /// The claim of the given name: one of the others, or else the one that a field holds.
    pub open spec fn claim(self, name: Seq<char>) -> Option<JsonTree> {
        match member(members_view(self.extra@), name) {
            Some(claim) => Some(claim),
            None => self.field_claim(name),
        }
    }

    /// The identifier of the account.
    pub open spec fn account(self) -> Seq<char> {
        match (self.email, self.preferred_username) {
            (Some(email), _) => email@,
            (None, Some(name)) => name@,
            (None, None) => self.sub@,
        }
    }

    /// The identifier of the account: the email, or else the preferred user name, or else the
    /// subject.
    pub fn resolved_email(&self) -> (r: String)
        ensures
            r@ == match (self.email, self.preferred_username) {
                (Some(email), _) => email@,
                (None, Some(name)) => name@,
                (None, None) => self.sub@,
            },
            r@ == self.account(),
    {
        match (&self.email, &self.preferred_username) {
            (Some(email), _) => email.clone(),
            (None, Some(name)) => name.clone(),
            (None, None) => self.sub.clone(),
        }
    }

    /// The claim of the given name as text, whether a field holds it or not.
    pub fn string_claim(&self, name: &str) -> (r: Option<String>)
        ensures
            r.deep_view() == match self.claim(name@) {
                Some(claim) => claim_text(claim),
                None => None,
            },
            r.deep_view() == text_of(self.claim(name@)),
    {
        match find_member(&self.extra, name) {
            Some(claim) => json_text(claim),
            None => self.field_text(name),
        }
    }

    /// The claim that a field holds, as text.
    fn field_text(&self, name: &str) -> (r: Option<String>)
        ensures
            r.deep_view() == match self.field_claim(name@) {
                Some(claim) => claim_text(claim),
                None => None,
            },
    {
        if same(name, "iss") {
            trimmed_text(self.iss.as_str())
        } else if same(name, "sub") {
            trimmed_text(self.sub.as_str())
        } else if same(name, "aud") {
            json_text(&self.aud)
        } else if same(name, "exp") {
            Some(signed_string(self.exp))
        } else if same(name, "iat") {
            Some(signed_string(self.iat))
        } else if same(name, "email") {
            optional_text(&self.email)
        } else if same(name, "email_verified") {
            None
        } else if same(name, "name") {
            optional_text(&self.name)
        } else if same(name, "preferred_username") {
            optional_text(&self.preferred_username)
        } else if same(name, "nonce") {
            optional_text(&self.nonce)
        } else {
            None
        }
    }
}

/// A string without the white space around it, where any is left.
fn trimmed_text(s: &str) -> (r: Option<String>)
    ensures
        r.deep_view() == claim_text(JsonTree::Str(s@)),
{
    let t = trim(s);
    if t.as_str().is_empty() {
        None
    } else {
        Some(t)
    }
}

/// The text that an optional text stands for as a claim.
fn optional_text(text: &Option<String>) -> (r: Option<String>)
    ensures
        r.deep_view() == claim_text(text_claim(*text)),
{
    match text {
        Some(s) => trimmed_text(s.as_str()),
        None => None,
    }
}

/// The text that a claim stands for.
pub fn json_text(claim: &Json) -> (r: Option<String>)
    ensures
        r.deep_view() == claim_text(claim@),
{
    match claim {
        Json::Str(s) => trimmed_text(s.as_str()),
        Json::Number(JsonNumber::Unsigned(n)) => Some(digits_string(*n)),
        Json::Number(JsonNumber::Negative(n)) => Some(signed_string(*n)),
        _ => None,
    }
}

/// The integer that a claim is, where it is one.
pub open spec fn claim_integer(claim: JsonTree) -> Option<int> {
    match claim {
        JsonTree::Number(JsonNumber::Unsigned(n)) => Some(n as int),
        JsonTree::Number(JsonNumber::Negative(n)) => Some(n as int),
        _ => None,
    }
}

/// Two integer claims stand for one text only where they are one integer, so no two tenants with
/// numbers for names are taken for one.
pub proof fn law_integer_claims_do_not_merge(a: JsonTree, b: JsonTree)
    requires
        claim_integer(a) is Some,
        claim_integer(b) is Some,
        claim_text(a) == claim_text(b),
    ensures
        claim_integer(a) == claim_integer(b),
{
    lemma_decimal_injective(claim_integer(a)->0, claim_integer(b)->0);
}

/// The order in which claims beside the fields are held does not matter: claims with the same fields
/// and the same others give the same claim for each name.
pub proof fn law_claims_have_no_order(a: IdTokenClaims, b: IdTokenClaims, name: Seq<char>)
    requires
        a.well_formed(),
        b.well_formed(),
        members_view(a.extra@).to_set() == members_view(b.extra@).to_set(),
        a == (IdTokenClaims { extra: a.extra, ..b }),
    ensures
        a.claim(name) == b.claim(name),
{
    law_members_have_no_order(members_view(a.extra@), members_view(b.extra@), name);
}

/// A verifier kept by the client, and the challenge sent in its place.
#[derive(Debug)]
pub struct PkcePair {
    pub verifier: String,
    pub challenge: String,
}

impl Clone for PkcePair {
    fn clone(&self) -> (r: Self)
        ensures
            r == *self,
    {
        PkcePair { verifier: self.verifier.clone(), challenge: self.challenge.clone() }
    }
}

/// The challenge of the method `S256` for a verifier.
pub open spec fn s256(verifier: Seq<char>) -> Seq<char> {
    base64url(sha256(encode_utf8(verifier)))
}

/// Whether `s` is made of characters that a URL takes as they are.
pub open spec fn is_url_safe(s: Seq<char>) -> bool {
    forall|i: int| 0 <= i < s.len() ==> is_base64url_char(#[trigger] s[i])
}

impl PkcePair {
    /// The pair whose verifier encodes the given bytes.
    pub fn from_random(bytes: &[u8]) -> (r: Self)
        requires
            bytes@.len() <= 0x3fff_ffff,
        ensures
            r.verifier@ == base64url(bytes@),
            r.verifier@.len() == (4 * bytes@.len() + 2) / 3,
            is_url_safe(r.verifier@),
            base64url_decoded(r.verifier@) == Some(bytes@),
            r.challenge@ == s256(r.verifier@),
            r.challenge@.len() == 43,
            is_url_safe(r.challenge@),
            base64url_decoded(r.challenge@) == Some(sha256(encode_utf8(r.verifier@))),
    {
        let verifier = encode_base64url(bytes);
        let digest = digest_sha256(verifier.as_str().as_bytes());
        let challenge = encode_base64url(digest.as_slice());
        proof {
            lemma_base64url(bytes@);
            law_decoding_undoes_encoding(bytes@);
            lemma_base64url(digest@);
            law_decoding_undoes_encoding(digest@);
        }
        PkcePair { verifier, challenge }
    }

    /// A pair from 32 random bytes.
    pub fn generate() -> (r: Self)
        ensures
            exists|bytes: Seq<u8>|
                #![trigger base64url(bytes)]
                bytes.len() == 32 && r.verifier@ == base64url(bytes),
            r.verifier@.len() == 43,
            is_url_safe(r.verifier@),
            r.challenge@ == s256(r.verifier@),
            r.challenge@.len() == 43,
            is_url_safe(r.challenge@),
    {
        let bytes = random_bytes(32);
        PkcePair::from_random(bytes.as_slice())
    }
}

/// The text of a state parameter made from the given bytes.
pub fn state_from_random(bytes: &[u8]) -> (r: String)
    requires
        bytes@.len() <= 0x3fff_ffff,
    ensures
        r@ == base64url(bytes@),
        r@.len() == (4 * bytes@.len() + 2) / 3,
        is_url_safe(r@),
        base64url_decoded(r@) == Some(bytes@),
{
    proof {
        lemma_base64url(bytes@);
        law_decoding_undoes_encoding(bytes@);
    }
    encode_base64url(bytes)
}

/// A state parameter from 24 random bytes.
pub fn random_state() -> (r: String)
    ensures
        exists|bytes: Seq<u8>|
            #![trigger base64url(bytes)]
            bytes.len() == 24 && r@ == base64url(bytes),
        r@.len() == 32,
        is_url_safe(r@),
{
    let bytes = random_bytes(24);
    state_from_random(bytes.as_slice())
}

/// The nanoseconds that lie at least between two fetches of the keys on account of an unknown key.
pub const JWKS_REFETCH_COOLDOWN: u128 = 30_000_000_000;

/// The seconds after which a request to an issuer is given up.
pub const ISSUER_TIMEOUT_SECS: u64 = 10;

/// The seconds by which the clocks of issuer and client may differ.
pub const LEEWAY: u64 = 60;

/// A client of one issuer, with what it has learned of it.
pub struct OidcClient {
    /// The URL of the issuer.
    issuer: String,
    pub client_id: String,
    pub client_secret: Option<String>,
    pub redirect_uri: String,
    /// What the issuer publishes of itself, once fetched.
    discovery: Option<DiscoveryDoc>,
    /// The keys of the issuer, once fetched.
    jwks: Option<jsonwebtoken::jwk::JwkSet>,
    /// When the keys were last fetched on account of an unknown key, on a clock of nanoseconds.
    jwks_refetched_at: Option<u128>,
}

/// An `OidcClient`, with text as character sequences.
pub struct ClientView {
    pub issuer: Seq<char>,
    pub client_id: Seq<char>,
    pub client_secret: Option<Seq<char>>,
    pub redirect_uri: Seq<char>,
    pub discovery: Option<DiscoveryDoc>,
    pub jwks: Option<jsonwebtoken::jwk::JwkSet>,
    pub refetched_at: Option<u128>,
}

impl View for OidcClient {
    type V = ClientView;

    closed spec fn view(&self) -> ClientView {
        ClientView {
            issuer: self.issuer@,
            client_id: self.client_id@,
            client_secret: self.client_secret.deep_view(),
            redirect_uri: self.redirect_uri@,
            discovery: self.discovery,
            jwks: self.jwks,
            refetched_at: self.jwks_refetched_at,
        }
    }
}

impl ClientView {
    /// Whether `self` and `other` are set up alike, whatever each has learned.
    pub open spec fn same_setup(self, other: Self) -> bool {
        &&& self.issuer == other.issuer
        &&& self.client_id == other.client_id
        &&& self.client_secret == other.client_secret
        &&& self.redirect_uri == other.redirect_uri
    }
}

/// The URL of an issuer as its tokens name it.
pub open spec fn issuer_name(issuer: Seq<char>) -> Seq<char> {
    trim_end_of(issuer, '/')
}

/// Where an issuer publishes what it says of itself.
pub open spec fn well_known(issuer: Seq<char>) -> Seq<char> {
    issuer_name(issuer) + "/.well-known/openid-configuration"@
}

/// Where an issuer publishes what it says of itself.
pub fn well_known_url(issuer: &str) -> (r: String)
    ensures
        r@ == well_known(issuer@),
{
    trim_end_matches(issuer, '/').concat("/.well-known/openid-configuration")
}

/// What an issuer publishes of itself, or where to fetch it.
pub enum DiscoveryStep {
    Cached(DiscoveryDoc),
    Fetch(String),
}

/// How far the search for a key is.
#[derive(Clone, Copy, Debug, PartialEq, Eq, Structural)]
pub enum KeyStage {
    /// Nothing was asked for yet.
    Start,
    /// The keys are being fetched because none are known.
    Loading,
    /// The keys are being fetched because the key is not among those known.
    Reloading,
    /// The search is over.
    Done,
}

/// What happened in the search for a key.
pub enum KeyEvent {
    Begin,
    Discovered(DiscoveryDoc),
    /// The issuer answered with its keys.
    Fetched(Vec<u8>),
}

/// What to do next in the search for a key.
pub enum KeyAction {
    /// The key was found.
    Use(jsonwebtoken::jwk::Jwk),
    /// Fetch what the issuer publishes of itself.
    FetchDiscovery(String),
    /// Fetch the keys of the issuer.
    FetchJwks(String),
    /// The issuer has no such key.
    Fail(VerifyError),
}

/// A `KeyAction`, with text as character sequences.
pub enum KeyActionView {
    Use(jsonwebtoken::jwk::Jwk),
    FetchDiscovery(Seq<char>),
    FetchJwks(Seq<char>),
    Fail(VerifyErrorView),
}

impl View for KeyAction {
    type V = KeyActionView;

    open spec fn view(&self) -> KeyActionView {
        match *self {
            KeyAction::Use(jwk) => KeyActionView::Use(jwk),
            KeyAction::FetchDiscovery(url) => KeyActionView::FetchDiscovery(url@),
            KeyAction::FetchJwks(url) => KeyActionView::FetchJwks(url@),
            KeyAction::Fail(e) => KeyActionView::Fail(e@),
        }
    }
}

/// Why a token was not taken.
#[derive(Debug)]
pub enum VerifyError {
    /// Its header cannot be read.
    Header(String),
    /// Its header names no key.
    MissingKid,
    /// The issuer has no key of that name.
    UnknownKid(String),
    /// What the issuer serves for its keys cannot be read.
    Keys,
    /// The key cannot be used.
    Key(String),
    /// It did not pass the check.
    Claims(String),
    /// The claims that were read are not those that it carries.
    Unread,
}

/// A `VerifyError`, with text as character sequences.
pub enum VerifyErrorView {
    Header(Seq<char>),
    MissingKid,
    UnknownKid(Seq<char>),
    Keys,
    Key(Seq<char>),
    Claims(Seq<char>),
    Unread,
}

impl View for VerifyError {
    type V = VerifyErrorView;

    open spec fn view(&self) -> VerifyErrorView {
        match *self {
            VerifyError::Header(e) => VerifyErrorView::Header(e@),
            VerifyError::MissingKid => VerifyErrorView::MissingKid,
            VerifyError::UnknownKid(kid) => VerifyErrorView::UnknownKid(kid@),
            VerifyError::Keys => VerifyErrorView::Keys,
            VerifyError::Key(e) => VerifyErrorView::Key(e@),
            VerifyError::Claims(e) => VerifyErrorView::Claims(e@),
            VerifyError::Unread => VerifyErrorView::Unread,
        }
    }
}

/// The text of an error.
pub open spec fn verify_message(e: VerifyErrorView) -> Seq<char> {
    match e {
        VerifyErrorView::Header(e) => "decode jwt header: "@ + e,
        VerifyErrorView::MissingKid => "token missing kid header"@,
        VerifyErrorView::UnknownKid(kid) => "kid "@ + kid + " not in the issuer's JWKS"@,
        VerifyErrorView::Keys => "error decoding response body"@,
        VerifyErrorView::Key(e) => "build decoding key: "@ + e,
        VerifyErrorView::Claims(e) => "verify claims: "@ + e,
        VerifyErrorView::Unread => "verify claims: claims differ from the token"@,
    }
}

impl VerifyError {
    /// The text of the error.
    pub fn message(&self) -> (r: String)
        ensures
            r@ == verify_message(self@),
    {
        match self {
            VerifyError::Header(e) => "decode jwt header: ".to_owned().concat(e.as_str()),
            VerifyError::MissingKid => "token missing kid header".to_owned(),
            VerifyError::UnknownKid(kid) => "kid ".to_owned().concat(kid.as_str()).concat(
                " not in the issuer's JWKS",
            ),
            VerifyError::Keys => "error decoding response body".to_owned(),
            VerifyError::Key(e) => "build decoding key: ".to_owned().concat(e.as_str()),
            VerifyError::Claims(e) => "verify claims: ".to_owned().concat(e.as_str()),
            VerifyError::Unread => "verify claims: claims differ from the token".to_owned(),
        }
    }

    /// The text of the error where the token was an identity token.
    pub fn id_token_message(&self) -> (r: String)
        ensures
            r@ == "verify id_token: "@ + verify_message(self@),
            r@ == id_token_refusal(self@),
    {
        let m = self.message();
        "verify id_token: ".to_owned().concat(m.as_str())
    }
}

/// Whether the keys may be fetched on account of an unknown key: they never were, or long enough
/// ago.
pub open spec fn may_refetch(last: Option<u128>, now: u128) -> bool {
    match last {
        Some(t) => now - t >= JWKS_REFETCH_COOLDOWN,
        None => true,
    }
}

/// How the keys are fetched: what the issuer publishes of itself says where, and is fetched first
/// where it is not known.
pub open spec fn fetch_keys(s: ClientView) -> KeyActionView {
    match s.discovery {
        Some(doc) => KeyActionView::FetchJwks(doc.jwks_uri@),
        None => KeyActionView::FetchDiscovery(well_known(s.issuer)),
    }
}

/// What follows when the keys known do not have the key: they are fetched once more, unless that was
/// just done or may not be done yet.
pub open spec fn missed(s: ClientView, kid: Seq<char>, stage: KeyStage, now: u128) -> (
    ClientView,
    KeyStage,
    KeyActionView,
) {
    if stage != KeyStage::Reloading && may_refetch(s.refetched_at, now) {
        (ClientView { refetched_at: Some(now), ..s }, KeyStage::Reloading, fetch_keys(s))
    } else {
        (s, KeyStage::Done, KeyActionView::Fail(VerifyErrorView::UnknownKid(kid)))
    }
}

/// What follows when a set of keys is known.
pub open spec fn searched(
    s: ClientView,
    set: jsonwebtoken::jwk::JwkSet,
    kid: Seq<char>,
    stage: KeyStage,
    now: u128,
) -> (ClientView, KeyStage, KeyActionView) {
    match find_key(jwk_set_keys(set), kid) {
        Some(jwk) => (s, KeyStage::Done, KeyActionView::Use(jwk)),
        None => missed(s, kid, stage, now),
    }
}

/// One step in the search for a key.
pub open spec fn key_step(
    s: ClientView,
    kid: Seq<char>,
    stage: KeyStage,
    event: KeyEvent,
    now: u128,
) -> (ClientView, KeyStage, KeyActionView) {
    match event {
        KeyEvent::Begin => match s.jwks {
            Some(set) => searched(s, set, kid, KeyStage::Start, now),
            None => (s, KeyStage::Loading, fetch_keys(s)),
        },
        KeyEvent::Discovered(doc) => (
            ClientView { discovery: Some(doc), ..s },
            stage,
            KeyActionView::FetchJwks(doc.jwks_uri@),
        ),
        KeyEvent::Fetched(body) => match jwks_parse(body@) {
            Some(set) => searched(ClientView { jwks: Some(set), ..s }, set, kid, stage, now),
            None => (s, KeyStage::Done, KeyActionView::Fail(VerifyErrorView::Keys)),
        },
    }
}

/// What to do next in the check of a token.
pub enum VerifyAction {
    /// The token passed, and this is the JSON document of its claims.
    Verified(Vec<u8>),
    /// Fetch what the issuer publishes of itself.
    FetchDiscovery(String),
    /// Fetch the keys of the issuer.
    FetchJwks(String),
    /// The token is not taken.
    Fail(VerifyError),
}

/// What a token of the given issuer is held to.
pub open spec fn policy_for(
    alg: jsonwebtoken::Algorithm,
    issuer: Seq<char>,
    audience: Seq<Seq<char>>,
    validate_nbf: bool,
) -> TokenPolicyView {
    TokenPolicyView {
        alg,
        issuer: issuer_name(issuer),
        audience,
        leeway: LEEWAY,
        validate_nbf,
    }
}

/// What a check that is made at the time `at` comes to, where the claims are held to the time `now`
/// that was read before.
pub open spec fn checked(
    token: Seq<char>,
    key: jsonwebtoken::DecodingKey,
    policy: TokenPolicyView,
    at: u64,
    now: i64,
    r: Result<Vec<u8>, VerifyError>,
) -> bool {
    match token_check(token, key, policy, at) {
        Err(e) => r matches Err(x) && x@ == VerifyErrorView::Claims(e),
        Ok(claims) => {
            &&& passed_at(claims, token, policy, at)
            &&& match refusal(claims, policy, now as int) {
                Some(e) => r matches Err(x) && x@ == VerifyErrorView::Claims(e),
                None => r matches Ok(payload) && token_payload(token) == Some(payload@)
                    && json_parse(payload@) == Some(claims),
            }
        },
    }
}

/// What a check that is made at some time comes to.
pub open spec fn checked_once(
    token: Seq<char>,
    key: jsonwebtoken::DecodingKey,
    policy: TokenPolicyView,
    now: i64,
    r: Result<Vec<u8>, VerifyError>,
) -> bool {
    exists|at: u64| #[trigger] checked(token, key, policy, at, now, r)
}

/// What the check of a token under a key comes to. Whether the token passes depends on the time.
pub open spec fn verified_under(
    jwk: jsonwebtoken::jwk::Jwk,
    token: Seq<char>,
    policy: TokenPolicyView,
    now: i64,
    r: Result<Vec<u8>, VerifyError>,
) -> bool {
    match jwk_decoding_key(jwk) {
        Err(e) => r matches Err(x) && x@ == VerifyErrorView::Key(e),
        Ok(key) => checked_once(token, key, policy, now, r),
    }
}

/// Whether one step in the check of a token leads from `s` to `after`, to the stage `next` and to an
/// action. A token whose header names no key is refused at once; else the key is searched for, and
/// when it is found the token is checked under it.
pub open spec fn verify_step(
    s: ClientView,
    token: Seq<char>,
    audience: Seq<Seq<char>>,
    validate_nbf: bool,
    stage: KeyStage,
    event: KeyEvent,
    now: Moment,
    after: ClientView,
    next: KeyStage,
    action: VerifyAction,
) -> bool {
    match jwt_header(token) {
        Err(e) => {
            &&& after == s
            &&& next == KeyStage::Done
            &&& action matches VerifyAction::Fail(x) && x@ == VerifyErrorView::Header(e)
        },
        Ok(header) => match header.kid {
            None => {
                &&& after == s
                &&& next == KeyStage::Done
                &&& action matches VerifyAction::Fail(x) && x@ == VerifyErrorView::MissingKid
            },
            Some(kid) => {
                let (s2, next2, search) = key_step(s, kid, stage, event, now.ticks);
                let policy = policy_for(header.alg, s.issuer, audience, validate_nbf);
                &&& after == s2
                &&& next == next2
                &&& match search {
                    KeyActionView::Use(jwk) => match action {
                        VerifyAction::Verified(payload) => verified_under(
                            jwk,
                            token,
                            policy,
                            now.wall.secs,
                            Ok(payload),
                        ),
                        VerifyAction::Fail(e) => verified_under(
                            jwk,
                            token,
                            policy,
                            now.wall.secs,
                            Err(e),
                        ),
                        _ => false,
                    },
                    KeyActionView::FetchDiscovery(url) => action matches VerifyAction::FetchDiscovery(u)
                        && u@ == url,
                    KeyActionView::FetchJwks(url) => action matches VerifyAction::FetchJwks(u)
                        && u@ == url,
                    KeyActionView::Fail(e) => action matches VerifyAction::Fail(x) && x@ == e,
                }
            },
        },
    }
}

/// The pairs that the authorization request carries.
pub open spec fn request_pairs(
    client_id: Seq<char>,
    redirect_uri: Seq<char>,
    scope: Seq<char>,
    state: Seq<char>,
    challenge: Seq<char>,
) -> Seq<(Seq<char>, Seq<char>)> {
    seq![
        ("response_type"@, "code"@),
        ("client_id"@, client_id),
        ("redirect_uri"@, redirect_uri),
        ("scope"@, scope),
        ("state"@, state),
        ("code_challenge"@, challenge),
        ("code_challenge_method"@, "S256"@),
    ]
}

/// The fields of the form that exchanges a code for tokens.
pub open spec fn exchange_fields(
    code: Seq<char>,
    redirect_uri: Seq<char>,
    client_id: Seq<char>,
    verifier: Seq<char>,
    secret: Option<Seq<char>>,
) -> Seq<(Seq<char>, Seq<char>)> {
    let fields = seq![
        ("grant_type"@, "authorization_code"@),
        ("code"@, code),
        ("redirect_uri"@, redirect_uri),
        ("client_id"@, client_id),
        ("code_verifier"@, verifier),
    ];
    match secret {
        Some(secret) => fields.push(("client_secret"@, secret)),
        None => fields,
    }
}

/// A pair of a name and a value.
pub fn pair(name: &str, value: &str) -> (r: (String, String))
    ensures
        r.0@ == name@,
        r.1@ == value@,
{
    (name.to_owned(), value.to_owned())
}

impl OidcClient {
    /// A client that has learned nothing of its issuer yet.
    pub fn new(
        issuer: String,
        client_id: String,
        client_secret: Option<String>,
        redirect_uri: String,
    ) -> (r: Self)
        ensures
            r@ == (ClientView {
                issuer: issuer@,
                client_id: client_id@,
                client_secret: client_secret.deep_view(),
                redirect_uri: redirect_uri@,
                discovery: None,
                jwks: None,
                refetched_at: None,
            }),
            r@ == new_client(issuer@, client_id@, client_secret.deep_view(), redirect_uri@),
    {
        OidcClient {
            issuer,
            client_id,
            client_secret,
            redirect_uri,
            discovery: None,
            jwks: None,
            jwks_refetched_at: None,
        }
    }

    /// The URL of the issuer.
    pub fn issuer(&self) -> (r: String)
        ensures
            r@ == self@.issuer,
    {
        self.issuer.clone()
    }

    /// The name of the client at its issuer.
    pub fn client_id(&self) -> (r: String)
        ensures
            r@ == self@.client_id,
    {
        self.client_id.clone()
    }

    /// What the issuer publishes of itself, or where to fetch it.
    pub fn discovery(&self) -> (r: DiscoveryStep)
        ensures
            match self@.discovery {
                Some(doc) => r == DiscoveryStep::Cached(doc),
                None => r matches DiscoveryStep::Fetch(url) && url@ == well_known(self@.issuer),
            },
            match r {
                DiscoveryStep::Cached(doc) => self@.discovery == Some(doc),
                DiscoveryStep::Fetch(url) => fetch_keys(self@) == KeyActionView::FetchDiscovery(url@),
            },
    {
        match &self.discovery {
            Some(doc) => DiscoveryStep::Cached(doc.clone()),
            None => DiscoveryStep::Fetch(well_known_url(self.issuer.as_str())),
        }
    }

    /// Keeps what the issuer publishes of itself.
    pub fn store_discovery(&mut self, doc: DiscoveryDoc)
        ensures
            final(self)@ == (ClientView { discovery: Some(doc), ..old(self)@ }),
            final(self)@ == informed(old(self)@, doc),
    {
        self.discovery = Some(doc);
    }

    /// How the keys of the issuer are fetched.
    pub fn fetch_jwks(&self) -> (r: KeyAction)
        ensures
            r@ == fetch_keys(self@),
    {
        match &self.discovery {
            Some(doc) => KeyAction::FetchJwks(doc.jwks_uri.clone()),
            None => KeyAction::FetchDiscovery(well_known_url(self.issuer.as_str())),
        }
    }

    /// Whether the keys may be fetched on account of an unknown key. Where they may, that is noted
    /// before the fetch, so that a fetch that fails counts too.
    pub fn begin_refetch(&mut self, now: u128) -> (r: bool)
        ensures
            r == may_refetch(old(self)@.refetched_at, now),
            final(self)@ == (if r {
                ClientView { refetched_at: Some(now), ..old(self)@ }
            } else {
                old(self)@
            }),
            (final(self)@, r) == refetch_begun(old(self)@, now),
    {
        let allow = match self.jwks_refetched_at {
            Some(t) => now >= t && now - t >= JWKS_REFETCH_COOLDOWN,
            None => true,
        };
        if allow {
            self.jwks_refetched_at = Some(now);
        }
        allow
    }

    /// Takes one step in the search for the key of the given name.
    pub fn jwk_for_kid(&mut self, kid: &str, stage: KeyStage, event: KeyEvent, now: u128) -> (r: (
        KeyStage,
        KeyAction,
    ))
        ensures
            (final(self)@, r.0, r.1@) == key_step(old(self)@, kid@, stage, event, now),
    {
        let (stage, found) = match event {
            KeyEvent::Begin => match &self.jwks {
                Some(set) => (KeyStage::Start, find_jwk(set, kid)),
                None => {
                    return (KeyStage::Loading, self.fetch_jwks());
                },
            },
            KeyEvent::Discovered(doc) => {
                let uri = doc.jwks_uri.clone();
                self.discovery = Some(doc);
                return (stage, KeyAction::FetchJwks(uri));
            },
            KeyEvent::Fetched(body) => match parse_jwks(body.as_slice()) {
                Some(set) => {
                    let found = find_jwk(&set, kid);
                    self.jwks = Some(set);
                    (stage, found)
                },
                None => {
                    return (KeyStage::Done, KeyAction::Fail(VerifyError::Keys));
                },
            },
        };
        match found {
            Some(jwk) => (KeyStage::Done, KeyAction::Use(jwk)),
            None => {
                if stage != KeyStage::Reloading && self.begin_refetch(now) {
                    (KeyStage::Reloading, self.fetch_jwks())
                } else {
                    (KeyStage::Done, KeyAction::Fail(VerifyError::UnknownKid(kid.to_owned())))
                }
            },
        }
    }

    /// The pairs that the authorization request carries.
    pub fn authorize_pairs(&self, pkce: &PkcePair, state: &str, scopes: &[&str]) -> (r: Vec<
        (String, String),
    >)
        ensures
            r.deep_view() == request_pairs(
                self@.client_id,
                self@.redirect_uri,
                joined(scopes.deep_view(), " "@),
                state@,
                pkce.challenge@,
            ),
    {
        let scope = join(scopes, " ");
        let r = vec![
            pair("response_type", "code"),
            pair("client_id", self.client_id.as_str()),
            pair("redirect_uri", self.redirect_uri.as_str()),
            pair("scope", scope.as_str()),
            pair("state", state),
            pair("code_challenge", pkce.challenge.as_str()),
            pair("code_challenge_method", "S256"),
        ];
        assert(r.deep_view() =~= request_pairs(
            self.client_id@,
            self.redirect_uri@,
            joined(scopes.deep_view(), " "@),
            state@,
            pkce.challenge@,
        ));
        r
    }

    /// The pairs that an authorization request of the client carries.
    pub open spec fn authorization(
        self,
        pkce: PkcePair,
        state: Seq<char>,
        scopes: Seq<Seq<char>>,
    ) -> Seq<(Seq<char>, Seq<char>)> {
        request_pairs(
            self@.client_id,
            self@.redirect_uri,
            joined(scopes, " "@),
            state,
            pkce.challenge@,
        )
    }

    /// The URL that the browser is sent to: the authorization endpoint with the request in its query.
    pub fn authorize_url(
        &self,
        doc: &DiscoveryDoc,
        pkce: &PkcePair,
        state: &str,
        scopes: &[&str],
    ) -> (r: Result<String, String>)
        requires
            fits_url(
                doc.authorization_endpoint@,
                self.authorization(*pkce, state@, scopes.deep_view()),
            ),
        ensures
            match url_parse(doc.authorization_endpoint@) {
                Ok(_) => r matches Ok(url) && url@ == url_with_pairs(
                    doc.authorization_endpoint@,
                    self.authorization(*pkce, state@, scopes.deep_view()),
                ),
                Err(e) => r matches Err(x) && x@ == e,
            },
    {
        let pairs = self.authorize_pairs(pkce, state, scopes);
        append_pairs(doc.authorization_endpoint.as_str(), &pairs)
    }

    /// The URL that the browser is sent to, or nothing where it would be longer than a URL can be.
    pub fn try_authorize_url(
        &self,
        doc: &DiscoveryDoc,
        pkce: &PkcePair,
        state: &str,
        scopes: &[&str],
    ) -> (r: Option<Result<String, String>>)
        ensures
            r is Some <==> fits_url(
                doc.authorization_endpoint@,
                self.authorization(*pkce, state@, scopes.deep_view()),
            ),
            match url_parse(doc.authorization_endpoint@) {
                Ok(_) => r matches Some(x) ==> (x matches Ok(url) && url@ == url_with_pairs(
                    doc.authorization_endpoint@,
                    self.authorization(*pkce, state@, scopes.deep_view()),
                )),
                Err(e) => r matches Some(Err(x)) && x@ == e,
            },
    {
        if let Ok(link) = parse_link(doc.authorization_endpoint.as_str()) {
            let pairs = self.authorize_pairs(pkce, state, scopes);
            if !request_fits(link.text.as_str().unicode_len(), &pairs) {
                return None;
            }
        }
        Some(self.authorize_url(doc, pkce, state, scopes))
    }

    /// The form that exchanges a code for tokens.
    pub fn exchange_code(&self, code: &str, pkce_verifier: &str) -> (r: Vec<(String, String)>)
        ensures
            r.deep_view() == exchange_fields(
                code@,
                self@.redirect_uri,
                self@.client_id,
                pkce_verifier@,
                self@.client_secret,
            ),
    {
        let mut form = vec![
            pair("grant_type", "authorization_code"),
            pair("code", code),
            pair("redirect_uri", self.redirect_uri.as_str()),
            pair("client_id", self.client_id.as_str()),
            pair("code_verifier", pkce_verifier),
        ];
        if let Some(secret) = &self.client_secret {
            form.push(pair("client_secret", secret.as_str()));
        }
        assert(form.deep_view() =~= exchange_fields(
            code@,
            self.redirect_uri@,
            self.client_id@,
            pkce_verifier@,
            self.client_secret.deep_view(),
        ));
        form
    }

    /// What a token signed with `alg` is held to.
    pub fn token_policy(
        &self,
        alg: jsonwebtoken::Algorithm,
        audience: &Vec<String>,
        validate_nbf: bool,
    ) -> (r: TokenPolicy)
        ensures
            r@ == policy_for(alg, self@.issuer, audience.deep_view(), validate_nbf),
    {
        let mut names: Vec<String> = Vec::new();
        let mut i: usize = 0;
        while i < audience.len()
            invariant
                i <= audience@.len(),
                names@.len() == i,
                forall|j: int| 0 <= j < i ==> (#[trigger] names@[j])@ == audience@[j]@,
            decreases audience@.len() - i,
        {
            names.push(audience[i].clone());
            i += 1;
        }
        assert(names.deep_view() =~= audience.deep_view());
        TokenPolicy {
            alg,
            issuer: trim_end_matches(self.issuer.as_str(), '/'),
            audience: names,
            leeway: LEEWAY,
            validate_nbf,
        }
    }

    /// Checks a token under the key that signed it, for the given audience, with its claims held to
    /// the time `now` in seconds since the epoch. Gives the JSON document of its claims.
    pub fn verify_under_key(
        &self,
        token: &str,
        alg: jsonwebtoken::Algorithm,
        jwk: &jsonwebtoken::jwk::Jwk,
        audience: &Vec<String>,
        validate_nbf: bool,
        now: i64,
    ) -> (r: Result<Vec<u8>, VerifyError>)
        ensures
            verified_under(
                *jwk,
                token@,
                policy_for(alg, self@.issuer, audience.deep_view(), validate_nbf),
                now,
                r,
            ),
    {
        let ghost policy_view = policy_for(alg, self@.issuer, audience.deep_view(), validate_nbf);
        let key = match decoding_key(jwk) {
            Ok(k) => k,
            Err(e) => {
                return Err(VerifyError::Key(e));
            },
        };
        let policy = self.token_policy(alg, audience, validate_nbf);
        let v = match check_token(token, &key, &policy) {
            Ok(v) => v,
            Err(e) => {
                let ghost at = choose|at: u64| #[trigger]
                    token_check(token@, key, policy_view, at) == Err::<JsonTree, Seq<char>>(e@);
                let r = Err(VerifyError::Claims(e));
                assert(checked(token@, key, policy_view, at, now, r));
                assert(checked_once(token@, key, policy_view, now, r));
                return r;
            },
        };
        let claims = json_of(v);
        let ghost at = choose|at: u64|
            {
                &&& #[trigger] token_check(token@, key, policy_view, at) == Ok::<
                    JsonTree,
                    Seq<char>,
                >(claims@)
                &&& passed_at(claims@, token@, policy_view, at)
            };
        let r = match hold_to_policy(&claims, &policy, now) {
            Some(e) => Err(VerifyError::Claims(e)),
            None => match payload_of(token) {
                Some(payload) => Ok(payload),
                None => Err(VerifyError::Unread),
            },
        };
        assert(checked(token@, key, policy_view, at, now, r));
        assert(checked_once(token@, key, policy_view, now, r));
        r
    }

    /// Takes one step in the check of a token for the given audience, under the key of the issuer that
    /// its header names.
    pub fn verify_signed_claims(
        &mut self,
        token: &str,
        audience: &Vec<String>,
        validate_nbf: bool,
        stage: KeyStage,
        event: KeyEvent,
        now: Moment,
    ) -> (r: (KeyStage, VerifyAction))
        ensures
            verify_step(
                old(self)@,
                token@,
                audience.deep_view(),
                validate_nbf,
                stage,
                event,
                now,
                final(self)@,
                r.0,
                r.1,
            ),
    {
        let header = match read_header(token) {
            Ok(h) => h,
            Err(e) => {
                return (KeyStage::Done, VerifyAction::Fail(VerifyError::Header(e)));
            },
        };
        let kid = match &header.kid {
            Some(kid) => kid.clone(),
            None => {
                return (KeyStage::Done, VerifyAction::Fail(VerifyError::MissingKid));
            },
        };
        let (next, action) = self.jwk_for_kid(kid.as_str(), stage, event, now.ticks);
        let action = match action {
            KeyAction::Use(jwk) => {
                let now = now.wall.secs;
                match self.verify_under_key(token, header.alg, &jwk, audience, validate_nbf, now) {
                    Ok(payload) => VerifyAction::Verified(payload),
                    Err(e) => VerifyAction::Fail(e),
                }
            },
            KeyAction::FetchDiscovery(url) => VerifyAction::FetchDiscovery(url),
            KeyAction::FetchJwks(url) => VerifyAction::FetchJwks(url),
            KeyAction::Fail(e) => VerifyAction::Fail(e),
        };
        (next, action)
    }

    /// Takes one step in the check of an identity token: one for this client.
    pub fn verify_id_token(
        &mut self,
        id_token: &str,
        stage: KeyStage,
        event: KeyEvent,
        now: Moment,
    ) -> (r: (KeyStage, VerifyAction))
        ensures
            verify_step(
                old(self)@,
                id_token@,
                seq![old(self)@.client_id],
                false,
                stage,
                event,
                now,
                final(self)@,
                r.0,
                r.1,
            ),
    {
        let audience = vec![self.client_id.clone()];
        assert(audience.deep_view() =~= seq![self.client_id@]);
        self.verify_signed_claims(id_token, &audience, false, stage, event, now)
    }
}

/// One step in some search for a key.
pub struct KeyMove {
    pub kid: Seq<char>,
    pub stage: KeyStage,
    pub event: KeyEvent,
    pub now: u128,
}

/// The times at which the keys are fetched on account of an unknown key, in the given steps of any
/// number of searches by one client.
pub open spec fn refetch_times(s: ClientView, moves: Seq<KeyMove>) -> Seq<u128>
    decreases moves.len(),
{
    if moves.len() == 0 {
        Seq::empty()
    } else {
        let m = moves[0];
        let (after, next, _) = key_step(s, m.kid, m.stage, m.event, m.now);
        let later = refetch_times(after, moves.drop_first());
        if next == KeyStage::Reloading && !(m.event is Discovered) {
            seq![m.now] + later
        } else {
            later
        }
    }
}

/// Whether `times` follow each other, and the first of them `last`, by the cooldown at least.
pub open spec fn keep_distance(last: Option<u128>, times: Seq<u128>) -> bool {
    &&& forall|i: int, j: int|
        0 <= i < j < times.len() ==> times[j] - times[i] >= JWKS_REFETCH_COOLDOWN
    &&& last matches Some(t) ==> forall|i: int|
        0 <= i < times.len() ==> times[i] - t >= JWKS_REFETCH_COOLDOWN
}

/// However often and for whatever keys the client is asked, in however many searches at once, the
/// keys are fetched on account of an unknown key at most once in each cooldown.
pub proof fn law_refetches_keep_their_distance(s: ClientView, moves: Seq<KeyMove>)
    ensures
        keep_distance(s.refetched_at, refetch_times(s, moves)),
    decreases moves.len(),
{
    if moves.len() > 0 {
        let m = moves[0];
        let (after, next, _) = key_step(s, m.kid, m.stage, m.event, m.now);
        let later = refetch_times(after, moves.drop_first());
        law_refetches_keep_their_distance(after, moves.drop_first());
        if next == KeyStage::Reloading && !(m.event is Discovered) {
            let all = refetch_times(s, moves);
            assert(all == seq![m.now] + later);
            assert(all[0] == m.now);
            assert(forall|i: int| 0 < i < all.len() ==> #[trigger] all[i] == later[i - 1]);
            assert(after.refetched_at == Some(m.now));
        } else {
            assert(after.refetched_at == s.refetched_at);
        }
    }
}

/// A key that is known is used without a fetch.
pub proof fn law_known_keys_need_no_fetch(
    s: ClientView,
    set: jsonwebtoken::jwk::JwkSet,
    kid: Seq<char>,
    stage: KeyStage,
    now: u128,
)
    requires
        s.jwks == Some(set),
        find_key(jwk_set_keys(set), kid) is Some,
    ensures
        key_step(s, kid, stage, KeyEvent::Begin, now) == (
            s,
            KeyStage::Done,
            KeyActionView::Use(find_key(jwk_set_keys(set), kid)->0),
        ),
{
}

/// Within the cooldown an unknown key is refused without a fetch, and the client is left as it was.
pub proof fn law_unknown_keys_are_not_amplified(
    s: ClientView,
    set: jsonwebtoken::jwk::JwkSet,
    kid: Seq<char>,
    stage: KeyStage,
    now: u128,
)
    requires
        s.jwks == Some(set),
        find_key(jwk_set_keys(set), kid) is None,
        !may_refetch(s.refetched_at, now),
    ensures
        key_step(s, kid, stage, KeyEvent::Begin, now) == (
            s,
            KeyStage::Done,
            KeyActionView::Fail(VerifyErrorView::UnknownKid(kid)),
        ),
{
}

/// A key that the issuer has since published is found: once the cooldown is over, the search for a
/// key that is not known fetches the keys, and uses the key where they have it.
pub proof fn law_rotated_keys_are_found(
    s: ClientView,
    old_set: jsonwebtoken::jwk::JwkSet,
    new_set: jsonwebtoken::jwk::JwkSet,
    served: Vec<u8>,
    doc: DiscoveryDoc,
    kid: Seq<char>,
    now: u128,
    later: u128,
)
    requires
        s.jwks == Some(old_set),
        s.discovery == Some(doc),
        find_key(jwk_set_keys(old_set), kid) is None,
        find_key(jwk_set_keys(new_set), kid) is Some,
        jwks_parse(served@) == Some(new_set),
        may_refetch(s.refetched_at, now),
    ensures
        ({
            let (asked, stage, action) = key_step(s, kid, KeyStage::Start, KeyEvent::Begin, now);
            let (learned, _, found) = key_step(asked, kid, stage, KeyEvent::Fetched(served), later);
            &&& action == KeyActionView::FetchJwks(doc.jwks_uri@)
            &&& found == KeyActionView::Use(find_key(jwk_set_keys(new_set), kid)->0)
            &&& learned.jwks == Some(new_set)
        }),
{
}

/// A search fetches the keys on account of an unknown key once at most: the fetch is noted before it
/// is made, and what comes of it ends the search.
pub proof fn law_one_refetch_a_search(
    s: ClientView,
    kid: Seq<char>,
    stage: KeyStage,
    event: KeyEvent,
    now: u128,
)
    ensures
        ({
            let (after, next, _) = key_step(s, kid, stage, event, now);
            &&& next == KeyStage::Reloading && !(event is Discovered) ==> after.refetched_at == Some(
                now,
            ) && may_refetch(s.refetched_at, now)
            &&& stage == KeyStage::Reloading && event is Fetched ==> next == KeyStage::Done
            &&& after.same_setup(s)
        }),
{
}

/// A token that passes carries the claims that are handed back. They name the issuer and the audience
/// and say when they end, and at the time of the call they are neither over nor, where that is looked
/// at, early, by more than the leeway. The token was checked under the key of the issuer that its
/// header names.
pub proof fn law_verified_tokens_are_held_to_all(
    s: ClientView,
    token: Seq<char>,
    audience: Seq<Seq<char>>,
    validate_nbf: bool,
    stage: KeyStage,
    event: KeyEvent,
    now: Moment,
    after: ClientView,
    next: KeyStage,
    payload: Vec<u8>,
)
    requires
        verify_step(
            s,
            token,
            audience,
            validate_nbf,
            stage,
            event,
            now,
            after,
            next,
            VerifyAction::Verified(payload),
        ),
    ensures
        token_payload(token) == Some(payload@),
        token_claims(token) == json_parse(payload@),
        json_parse(payload@) matches Some(claims) && {
            &&& names_one_of(tree_get(claims, "iss"@), seq![issuer_name(s.issuer)])
            &&& names_one_of(tree_get(claims, "aud"@), audience)
            &&& says_when_over(claims)
            &&& tree_get(claims, "exp"@) matches Some(JsonTree::Number(JsonNumber::Unsigned(exp)))
                ==> exp >= now.wall.secs - LEEWAY
            &&& tree_get(claims, "exp"@) matches Some(
                JsonTree::Number(JsonNumber::Fractional(exp)),
            ) ==> exp == i64::MAX || exp + 1 >= now.wall.secs - LEEWAY
            &&& validate_nbf ==> !is_early(claims, LEEWAY as int, now.wall.secs as int)
            &&& signed_by_issuer(after, token, audience, validate_nbf, claims)
        },
        next == KeyStage::Done,
{
}

/// Whether a token passed the check under a key of the issuer that the client knows, the one that its
/// header names, with the given claims.
pub open spec fn signed_by_issuer(
    client: ClientView,
    token: Seq<char>,
    audience: Seq<Seq<char>>,
    validate_nbf: bool,
    claims: JsonTree,
) -> bool {
    jwt_header(token) matches Ok(header) && header.kid matches Some(kid) && client.jwks matches Some(
        set,
    ) && find_key(jwk_set_keys(set), kid) matches Some(jwk) && jwk_decoding_key(jwk) matches Ok(key)
        && exists|at: u64| #[trigger]
        token_check(token, key, policy_for(header.alg, client.issuer, audience, validate_nbf), at) == Ok::<
            JsonTree,
            Seq<char>,
        >(claims)
}

/// Clocks may differ by the leeway: claims that name an issuer and an audience, that end no earlier
/// than that before the time of a call, and where that is looked at begin no later than that after it,
/// are not refused once they passed the check.
pub proof fn law_a_minute_is_forgiven(claims: JsonTree, policy: TokenPolicyView, exp: u64, now: i64)
    requires
        tree_get(claims, "exp"@) == Some(JsonTree::Number(JsonNumber::Unsigned(exp))),
        policy.leeway == LEEWAY,
        exp >= now - LEEWAY,
        policy.validate_nbf ==> !is_early(claims, LEEWAY as int, now as int),
        names_anyone(tree_get(claims, "iss"@)),
        names_anyone(tree_get(claims, "aud"@)),
    ensures
        refusal(claims, policy, now as int) is None,
{
}

/// A token whose header names no key is refused without a request, and the client is left as it was.
pub proof fn law_tokens_must_name_their_key(
    s: ClientView,
    token: Seq<char>,
    audience: Seq<Seq<char>>,
    validate_nbf: bool,
    stage: KeyStage,
    event: KeyEvent,
    now: Moment,
    after: ClientView,
    next: KeyStage,
    action: VerifyAction,
)
    requires
        verify_step(s, token, audience, validate_nbf, stage, event, now, after, next, action),
        jwt_header(token) matches Ok(header) ==> header.kid is None,
    ensures
        action is Fail,
        after == s,
        next == KeyStage::Done,
{
}

/// Whether a field that may be missing reads a member that may be missing: `null` is as good as
/// nothing.
pub open spec fn reads_member(member: Option<JsonTree>, claim: JsonTree) -> bool {
    match member {
        Some(v) => v == claim,
        None => claim is Null,
    }
}

impl IdTokenClaims {
    /// Whether what is held beside the fields under a name is what a token carries under it. Nothing
    /// is held there under the name of a field.
    pub open spec fn reads_extra(self, claims: JsonTree, name: Seq<char>) -> bool {
        if self.field_claim(name) is Some {
            member(members_view(self.extra@), name) is None
        } else {
            member(members_view(self.extra@), name) == tree_get(claims, name)
        }
    }

    /// Whether all is read from the claims that a token carries.
    pub open spec fn reads(self, claims: JsonTree) -> bool {
        &&& tree_get(claims, "iss"@) == Some(JsonTree::Str(self.iss@))
        &&& tree_get(claims, "sub"@) == Some(JsonTree::Str(self.sub@))
        &&& tree_get(claims, "aud"@) == Some(self.aud@)
        &&& tree_get(claims, "exp"@) == Some(integer_claim(self.exp))
        &&& tree_get(claims, "iat"@) == Some(integer_claim(self.iat))
        &&& reads_member(tree_get(claims, "email"@), text_claim(self.email))
        &&& reads_member(tree_get(claims, "email_verified"@), flag_claim(self.email_verified))
        &&& reads_member(tree_get(claims, "name"@), text_claim(self.name))
        &&& reads_member(
            tree_get(claims, "preferred_username"@),
            text_claim(self.preferred_username),
        )
        &&& reads_member(tree_get(claims, "nonce"@), text_claim(self.nonce))
        &&& forall|name: Seq<char>| #[trigger] self.reads_extra(claims, name)
    }

    /// Whether a field holds the claim of the given name.
    fn is_field(&self, name: &str) -> (r: bool)
        ensures
            r == (self.field_claim(name@) is Some),
    {
        same(name, "iss") || same(name, "sub") || same(name, "aud") || same(name, "exp") || same(
            name,
            "iat",
        ) || same(name, "email") || same(name, "email_verified") || same(name, "name") || same(
            name,
            "preferred_username",
        ) || same(name, "nonce")
    }

    /// Whether what is held beside the fields under a name is what a token carries under it.
    fn extra_read(&self, carried: &Json, name: &str) -> (r: bool)
        ensures
            r == self.reads_extra(carried@, name@),
    {
        let held = find_member(&self.extra, name);
        if self.is_field(name) {
            held.is_none()
        } else {
            match (held, carried.get(name)) {
                (Some(a), Some(b)) => same_json(a, b),
                (None, None) => true,
                _ => false,
            }
        }
    }

    /// Whether everything beside the fields is what a token carries.
    fn extras_read(&self, carried: &Json) -> (r: bool)
        ensures
            r == (forall|name: Seq<char>| #[trigger] self.reads_extra(carried@, name)),
    {
        let ghost held = members_view(self.extra@);
        let mut i: usize = 0;
        while i < self.extra.len()
            invariant
                i <= self.extra@.len(),
                held == members_view(self.extra@),
                forall|k: int| 0 <= k < i ==> self.reads_extra(carried@, (#[trigger] held[k]).0),
            decreases self.extra@.len() - i,
        {
            assert(held[i as int].0 == self.extra@[i as int].0@);
            if !self.extra_read(carried, self.extra[i].0.as_str()) {
                return false;
            }
            i += 1;
        }
        if let Json::Object(members) = carried {
            proof {
                lemma_object_view(members);
            }
            let ghost all = members_view(members@);
            let mut j: usize = 0;
            while j < members.len()
                invariant
                    j <= members@.len(),
                    all == members_view(members@),
                    carried@ == JsonTree::Object(all),
                    forall|k: int| 0 <= k < j ==> self.reads_extra(carried@, (#[trigger] all[k]).0),
                decreases members@.len() - j,
            {
                assert(all[j as int].0 == members@[j as int].0@);
                if !self.extra_read(carried, members[j].0.as_str()) {
                    return false;
                }
                j += 1;
            }
            assert forall|name: Seq<char>| #[trigger] self.reads_extra(carried@, name) by {
                lemma_named(held, name);
                lemma_named(all, name);
            }
        } else {
            assert forall|name: Seq<char>| #[trigger] self.reads_extra(carried@, name) by {
                lemma_named(held, name);
            }
        }
        true
    }
}

/// Whether a member is the given text.
fn is_text(claims: &Json, name: &str, text: &str) -> (r: bool)
    ensures
        r == (tree_get(claims@, name@) == Some(JsonTree::Str(text@))),
{
    match claims.get_str(name) {
        Some(t) => same(t, text),
        None => false,
    }
}

/// Whether a member is the given integer.
fn is_integer(claims: &Json, name: &str, n: i64) -> (r: bool)
    ensures
        r == (tree_get(claims@, name@) == Some(integer_claim(n))),
{
    match claims.get(name) {
        Some(Json::Number(JsonNumber::Unsigned(m))) => n >= 0 && *m == n as u64,
        Some(Json::Number(JsonNumber::Negative(m))) => n < 0 && *m == n,
        _ => false,
    }
}

/// Whether a text that may be missing reads a member that may be missing.
fn is_optional_text(claims: &Json, name: &str, text: &Option<String>) -> (r: bool)
    ensures
        r == reads_member(tree_get(claims@, name@), text_claim(*text)),
{
    match (claims.get(name), text) {
        (None, None) => true,
        (Some(Json::Null), None) => true,
        (Some(Json::Str(s)), Some(t)) => same(s.as_str(), t.as_str()),
        _ => false,
    }
}

/// Takes the claims that were read of an identity token, given the claims that it carries, where all
/// of them were read from there.
pub fn id_token_claims(carried: &Json, claims: IdTokenClaims) -> (r: Result<
    IdTokenClaims,
    VerifyError,
>)
    ensures
        r == (if claims.reads(carried@) {
            Ok(claims)
        } else {
            Err(VerifyError::Unread)
        }),
{
    let aud = match carried.get("aud") {
        Some(aud) => same_json(aud, &claims.aud),
        None => false,
    };
    let verified = match (carried.get("email_verified"), claims.email_verified) {
        (None, None) => true,
        (Some(Json::Null), None) => true,
        (Some(Json::Bool(a)), Some(b)) => *a == b,
        _ => false,
    };
    if aud && verified && is_text(carried, "iss", claims.iss.as_str()) && is_text(
        carried,
        "sub",
        claims.sub.as_str(),
    ) && is_integer(carried, "exp", claims.exp) && is_integer(carried, "iat", claims.iat)
        && is_optional_text(carried, "email", &claims.email) && is_optional_text(
        carried,
        "name",
        &claims.name,
    ) && is_optional_text(carried, "preferred_username", &claims.preferred_username)
        && is_optional_text(carried, "nonce", &claims.nonce) && claims.extras_read(carried) {
        Ok(claims)
    } else {
        Err(VerifyError::Unread)
    }
}

/// The claims that are read of an identity token that passed are those of a token of the issuer for
/// the client: they hold the name of the issuer, and their audience is the client or a list with the
/// client in it. A token that lacks one of the claims that every identity token makes has none.
pub proof fn law_identity_tokens_are_for_the_client(
    s: ClientView,
    id_token: Seq<char>,
    stage: KeyStage,
    event: KeyEvent,
    now: Moment,
    after: ClientView,
    next: KeyStage,
    payload: Vec<u8>,
    claims: IdTokenClaims,
)
    requires
        verify_step(
            s,
            id_token,
            seq![s.client_id],
            false,
            stage,
            event,
            now,
            after,
            next,
            VerifyAction::Verified(payload),
        ),
        json_parse(payload@) matches Some(carried) && claims.reads(carried),
    ensures
        claims.iss@ == issuer_name(s.issuer),
        match claims.aud@ {
            JsonTree::Str(aud) => aud == s.client_id,
            JsonTree::Array(items) => items.contains(JsonTree::Str(s.client_id)),
            _ => false,
        },
        claims.exp >= now.wall.secs - LEEWAY,
{
    law_verified_tokens_are_held_to_all(
        s,
        id_token,
        seq![s.client_id],
        false,
        stage,
        event,
        now,
        after,
        next,
        payload,
    );
    let carried = json_parse(payload@)->0;
    assert(seq![issuer_name(s.issuer)].contains(claims.iss@));
    if let JsonTree::Array(items) = claims.aud@ {
        let i = choose|i: int|
            0 <= i < items.len() && seq![s.client_id].contains((#[trigger] items[i])->Str_0);
        assert(items[i] == JsonTree::Str(s.client_id));
    }
}

/// The text of a claim that may be missing.
pub open spec fn text_of(claim: Option<JsonTree>) -> Option<Seq<char>> {
    match claim {
        Some(claim) => claim_text(claim),
        None => None,
    }
}

/// Under every name, the claims that were read of a token have the text of what the token carries
/// under it: so the tenant that is read by a name of one's choice is the one that the issuer signed.
pub proof fn law_claims_are_those_of_the_token(claims: IdTokenClaims, carried: JsonTree, name: Seq<char>)
    requires
        claims.reads(carried),
    ensures
        text_of(claims.claim(name)) == text_of(tree_get(carried, name)),
{
    assert(claims.reads_extra(carried, name));
}

/// Whether a member is what a text that may be missing stands for: the text, or else nothing or
/// `null`.
pub open spec fn stands_for(member: Option<JsonTree>, text: Option<String>) -> bool {
    match text {
        Some(t) => member == Some(JsonTree::Str(t@)),
        None => member is None || member == Some(JsonTree::Null),
    }
}

/// Whether a number in a token is the given integer.
pub open spec fn is_number(member: Option<JsonTree>, n: i64) -> bool {
    match member {
        Some(JsonTree::Number(JsonNumber::Unsigned(m))) => m == n,
        Some(JsonTree::Number(JsonNumber::Negative(m))) => m == n && n < 0,
        _ => false,
    }
}

/// Whether a claim has a field of its own.
pub open spec fn has_field(name: Seq<char>) -> bool {
    ||| name == "iss"@
    ||| name == "sub"@
    ||| name == "aud"@
    ||| name == "exp"@
    ||| name == "iat"@
    ||| name == "email"@
    ||| name == "email_verified"@
    ||| name == "name"@
    ||| name == "preferred_username"@
    ||| name == "nonce"@
}

/// Claims are taken as read of a token if and only if the token carries what they hold: each field
/// that is there as the member of its name, each that may be missing and is as no member or `null`,
/// and beside the fields the same members under the same names.
pub proof fn law_claims_are_taken(claims: IdTokenClaims, carried: JsonTree)
    ensures
        claims.reads(carried) <==> {
            &&& tree_get(carried, "iss"@) == Some(JsonTree::Str(claims.iss@))
            &&& tree_get(carried, "sub"@) == Some(JsonTree::Str(claims.sub@))
            &&& tree_get(carried, "aud"@) == Some(claims.aud@)
            &&& is_number(tree_get(carried, "exp"@), claims.exp)
            &&& is_number(tree_get(carried, "iat"@), claims.iat)
            &&& stands_for(tree_get(carried, "email"@), claims.email)
            &&& match claims.email_verified {
                Some(b) => tree_get(carried, "email_verified"@) == Some(JsonTree::Bool(b)),
                None => tree_get(carried, "email_verified"@) is None || tree_get(
                    carried,
                    "email_verified"@,
                ) == Some(JsonTree::Null),
            }
            &&& stands_for(tree_get(carried, "name"@), claims.name)
            &&& stands_for(tree_get(carried, "preferred_username"@), claims.preferred_username)
            &&& stands_for(tree_get(carried, "nonce"@), claims.nonce)
            &&& forall|name: Seq<char>| #[trigger]
                member(members_view(claims.extra@), name) == if has_field(name) {
                    None
                } else {
                    tree_get(carried, name)
                }
        },
{
    if claims.reads(carried) {
        assert forall|name: Seq<char>| #[trigger]
            member(members_view(claims.extra@), name) == if has_field(name) {
                None
            } else {
                tree_get(carried, name)
            } by {
            assert(claims.reads_extra(carried, name));
        }
    }
}

/// A token can be read in one way only: claims that are taken of one token hold the same.
pub proof fn law_two_readings_agree(a: IdTokenClaims, b: IdTokenClaims, carried: JsonTree)
    requires
        a.reads(carried),
        b.reads(carried),
    ensures
        a.iss@ == b.iss@,
        a.sub@ == b.sub@,
        a.aud@ == b.aud@,
        a.exp == b.exp,
        a.iat == b.iat,
        a.email.deep_view() == b.email.deep_view(),
        a.email_verified == b.email_verified,
        a.name.deep_view() == b.name.deep_view(),
        a.preferred_username.deep_view() == b.preferred_username.deep_view(),
        a.nonce.deep_view() == b.nonce.deep_view(),
        forall|name: Seq<char>| #[trigger]
            member(members_view(a.extra@), name) == member(members_view(b.extra@), name),
        a.account() == b.account(),
{
    assert forall|name: Seq<char>| #[trigger]
        member(members_view(a.extra@), name) == member(members_view(b.extra@), name) by {
        assert(a.reads_extra(carried, name));
        assert(b.reads_extra(carried, name));
    }
}

/// The text of a claim: a string without the white space around it, where that leaves anything; an
/// integer as the digits that read back as it; and of nothing else.
pub proof fn law_claim_texts(text: Seq<char>, n: u64, i: i64, other: JsonTree)
    ensures
        claim_text(JsonTree::Str(text)) == if trimmed(text).len() > 0 {
            Some(trimmed(text))
        } else {
            None
        },
        claim_text(JsonTree::Number(JsonNumber::Unsigned(n))) matches Some(t) && number_of(t) == n
            && (n > 0 ==> t[0] != '0'),
        i < 0 ==> (claim_text(JsonTree::Number(JsonNumber::Negative(i))) matches Some(t) && t[0] == '-'
            && number_of(t.skip(1)) == -i),
        other !is Str && claim_integer(other) is None ==> claim_text(other) is None,
        text_of(Some(other)) == claim_text(other),
        text_of(None) is None,
{
    law_decimal_forms_read_back(n as int);
    law_decimal_forms_read_back(i as int);
}

/// A claim is found by its name: beside the fields first, and else in the field of that name.
pub proof fn law_claims_by_name(claims: IdTokenClaims, name: Seq<char>, value: JsonTree)
    ensures
        member(members_view(claims.extra@), name) == Some(value) ==> claims.claim(name) == Some(value),
        member(members_view(claims.extra@), name) is None && !has_field(name) ==> claims.claim(
            name,
        ) is None,
        member(members_view(claims.extra@), name) is None ==> {
            &&& name == "iss"@ ==> claims.claim(name) == Some(JsonTree::Str(claims.iss@))
            &&& name == "sub"@ ==> claims.claim(name) == Some(JsonTree::Str(claims.sub@))
            &&& name == "aud"@ ==> claims.claim(name) == Some(claims.aud@)
            &&& name == "exp"@ ==> is_number(claims.claim(name), claims.exp)
            &&& name == "iat"@ ==> is_number(claims.claim(name), claims.iat)
            &&& name == "email"@ ==> stands_for(claims.claim(name), claims.email)
            &&& name == "email_verified"@ ==> claims.claim(name) == Some(
                match claims.email_verified {
                    Some(b) => JsonTree::Bool(b),
                    None => JsonTree::Null,
                },
            )
            &&& name == "name"@ ==> stands_for(claims.claim(name), claims.name)
            &&& name == "preferred_username"@ ==> stands_for(
                claims.claim(name),
                claims.preferred_username,
            )
            &&& name == "nonce"@ ==> stands_for(claims.claim(name), claims.nonce)
        },
{
    reveal_strlit("iss");
    reveal_strlit("sub");
    reveal_strlit("aud");
    reveal_strlit("exp");
    reveal_strlit("iat");
    reveal_strlit("email");
    reveal_strlit("email_verified");
    reveal_strlit("name");
    reveal_strlit("preferred_username");
    reveal_strlit("nonce");
    assert("iss"@[0] != "sub"@[0]);
    assert("aud"@[0] != "iss"@[0] && "aud"@[0] != "sub"@[0]);
    assert("exp"@[0] != "iss"@[0] && "exp"@[0] != "sub"@[0] && "exp"@[0] != "aud"@[0]);
    assert("iat"@[1] != "iss"@[1] && "iat"@[0] != "sub"@[0] && "iat"@[0] != "aud"@[0] && "iat"@[0]
        != "exp"@[0]);
    assert("name"@[1] != "nonce"@[1]);
    assert("email"@.len() == 5 && "nonce"@.len() == 5 && "email"@[0] != "nonce"@[0]);
    assert("email_verified"@.len() == 14 && "preferred_username"@.len() == 18 && "name"@.len() == 4);
}

/// An account is known by its email, whatever else it has; without one by its preferred user name;
/// and without either by its subject.
pub proof fn law_accounts(claims: IdTokenClaims)
    ensures
        claims.email matches Some(email) ==> claims.account() == email@,
        claims.email is None ==> (claims.preferred_username matches Some(name) ==> claims.account()
            == name@),
        claims.email is None && claims.preferred_username is None ==> claims.account()
            == claims.sub@,
{
}

/// A challenge tells the digest of its verifier and nothing else of it.
pub proof fn law_challenges(verifier: Seq<char>)
    ensures
        base64url_decoded(s256(verifier)) == Some(sha256(encode_utf8(verifier))),
        is_url_safe(s256(verifier)),
{
    lemma_base64url(sha256(encode_utf8(verifier)));
    law_decoding_undoes_encoding(sha256(encode_utf8(verifier)));
}

/// An issuer is named without the slashes at the end of its URL, and asked about itself at one place
/// below that.
pub proof fn law_issuers(issuer: Seq<char>)
    ensures
        exists|n: int|
            {
                &&& 0 <= n <= issuer.len()
                &&& issuer_name(issuer) == #[trigger] issuer.take(n)
                &&& forall|k: int| n <= k < issuer.len() ==> issuer[k] == '/'
                &&& n > 0 ==> issuer[n - 1] != '/'
            },
        well_known(issuer) == issuer_name(issuer) + "/.well-known/openid-configuration"@,
{
    law_trimming_the_end(issuer, '/');
}

/// The keys may be fetched on account of an unknown key the first time, and then again from when the
/// cooldown has passed.
pub proof fn law_refetches(last: u128, now: u128)
    ensures
        may_refetch(None, now),
        may_refetch(Some(last), now) <==> now >= last + 30_000_000_000,
{
}

/// A search that knows no keys fetches them, from where the issuer says that they are. Where that is
/// not known it asks the issuer first. What the client knows stays as it is.
pub proof fn law_first_fetches(s: ClientView, kid: Seq<char>, stage: KeyStage, now: u128)
    requires
        s.jwks is None,
    ensures
        ({
            let (after, next, action) = key_step(s, kid, stage, KeyEvent::Begin, now);
            &&& after == s
            &&& next == KeyStage::Loading
            &&& s.discovery matches Some(doc) ==> action == KeyActionView::FetchJwks(doc.jwks_uri@)
            &&& s.discovery is None ==> action == KeyActionView::FetchDiscovery(
                issuer_name(s.issuer) + "/.well-known/openid-configuration"@,
            )
        }),
{
}

/// A search that does not find a key among those known fetches the keys, where that may be done, from
/// where the issuer says that they are, and keeps what it knows.
pub proof fn law_later_fetches(
    s: ClientView,
    set: jsonwebtoken::jwk::JwkSet,
    kid: Seq<char>,
    stage: KeyStage,
    now: u128,
)
    requires
        s.jwks == Some(set),
        find_key(jwk_set_keys(set), kid) is None,
        s.refetched_at matches Some(t) ==> now >= t + 30_000_000_000,
    ensures
        ({
            let (after, next, action) = key_step(s, kid, stage, KeyEvent::Begin, now);
            &&& after == (ClientView { refetched_at: Some(now), ..s })
            &&& next == KeyStage::Reloading
            &&& s.discovery matches Some(doc) ==> action == KeyActionView::FetchJwks(doc.jwks_uri@)
            &&& s.discovery is None ==> action == KeyActionView::FetchDiscovery(
                issuer_name(s.issuer) + "/.well-known/openid-configuration"@,
            )
        }),
{
}

/// What an issuer publishes of itself is kept, and the keys are fetched from where it says. Nothing
/// else changes.
pub proof fn law_discovery_is_kept(
    s: ClientView,
    kid: Seq<char>,
    stage: KeyStage,
    doc: DiscoveryDoc,
    now: u128,
)
    ensures
        ({
            let (after, next, action) = key_step(s, kid, stage, KeyEvent::Discovered(doc), now);
            &&& after.discovery == Some(doc)
            &&& after.same_setup(s)
            &&& after.jwks == s.jwks
            &&& after.refetched_at == s.refetched_at
            &&& next == stage
            &&& action == KeyActionView::FetchJwks(doc.jwks_uri@)
        }),
{
}

/// Keys that were fetched are kept, and the key is used where it is among them, whatever the fetch was
/// made for. What cannot be read as keys ends the search and is not kept.
pub proof fn law_fetched_keys_are_kept(
    s: ClientView,
    kid: Seq<char>,
    stage: KeyStage,
    body: Vec<u8>,
    now: u128,
)
    ensures
        ({
            let (after, next, action) = key_step(s, kid, stage, KeyEvent::Fetched(body), now);
            &&& after.same_setup(s)
            &&& after.discovery == s.discovery
            &&& jwks_parse(body@) is None ==> after == s && next == KeyStage::Done && action
                == KeyActionView::Fail(VerifyErrorView::Keys)
            &&& jwks_parse(body@) matches Some(set) ==> {
                &&& after.jwks == Some(set)
                &&& find_key(jwk_set_keys(set), kid) matches Some(jwk) ==> next == KeyStage::Done
                    && action == KeyActionView::Use(jwk) && after.refetched_at == s.refetched_at
                &&& find_key(jwk_set_keys(set), kid) is None ==> {
                    if stage != KeyStage::Reloading && (s.refetched_at matches Some(t) ==> now >= t
                        + 30_000_000_000) {
                        next == KeyStage::Reloading && (action is FetchJwks || action is FetchDiscovery)
                            && after.refetched_at == Some(now)
                    } else {
                        next == KeyStage::Done && action == KeyActionView::Fail(
                            VerifyErrorView::UnknownKid(kid),
                        ) && after.refetched_at == s.refetched_at
                    }
                }
            }
        }),
{
}

/// A token is held to the issuer and the audience that it is checked for, within a minute.
pub proof fn law_policies(
    alg: jsonwebtoken::Algorithm,
    issuer: Seq<char>,
    audience: Seq<Seq<char>>,
    validate_nbf: bool,
)
    ensures
        ({
            let policy = policy_for(alg, issuer, audience, validate_nbf);
            &&& policy.alg == alg
            &&& policy.issuer == issuer_name(issuer)
            &&& policy.audience == audience
            &&& policy.leeway == 60
            &&& policy.validate_nbf == validate_nbf
        }),
{
}

/// Whether a check of a token gave the given claims or the given error, at some time.
pub open spec fn came_to(
    token: Seq<char>,
    key: jsonwebtoken::DecodingKey,
    policy: TokenPolicyView,
    outcome: Result<JsonTree, Seq<char>>,
) -> bool {
    exists|at: u64| #[trigger] token_check(token, key, policy, at) == outcome
}

/// A token is refused under a key only for a reason: the key cannot be used, the token does not pass
/// the check, or its claims lack an issuer or an audience or are out of their time. The error tells
/// which.
pub proof fn law_refused_tokens(
    jwk: jsonwebtoken::jwk::Jwk,
    token: Seq<char>,
    policy: TokenPolicyView,
    now: i64,
    e: VerifyError,
)
    requires
        verified_under(jwk, token, policy, now, Err(e)),
    ensures
        match jwk_decoding_key(jwk) {
            Err(text) => e@ == VerifyErrorView::Key(text),
            Ok(key) => e@ matches VerifyErrorView::Claims(text) && {
                ||| came_to(token, key, policy, Err(text))
                ||| exists|claims: JsonTree| #[trigger]
                    came_to(token, key, policy, Ok(claims)) && refusal(claims, policy, now as int)
                        == Some(text) && {
                        ||| !names_anyone(tree_get(claims, "iss"@))
                        ||| !names_anyone(tree_get(claims, "aud"@))
                        ||| is_over(claims, policy.leeway as int, now as int)
                        ||| policy.validate_nbf && is_early(claims, policy.leeway as int, now as int)
                    }
            },
        },
{
    if let Ok(key) = jwk_decoding_key(jwk) {
        let r = Err::<Vec<u8>, VerifyError>(e);
        let at = choose|at: u64| #[trigger] checked(token, key, policy, at, now, r);
        let outcome = token_check(token, key, policy, at);
        assert(came_to(token, key, policy, outcome));
    }
}

/// A token that passes under a key was found good by the check, and its claims are not refused.
pub proof fn law_taken_tokens(
    jwk: jsonwebtoken::jwk::Jwk,
    token: Seq<char>,
    policy: TokenPolicyView,
    now: i64,
    payload: Vec<u8>,
)
    requires
        verified_under(jwk, token, policy, now, Ok(payload)),
    ensures
        jwk_decoding_key(jwk) matches Ok(key) && exists|claims: JsonTree| #[trigger]
            came_to(token, key, policy, Ok(claims)) && refusal(claims, policy, now as int) is None
                && token_payload(token) == Some(payload@) && json_parse(payload@) == Some(claims),
{
    let key = jwk_decoding_key(jwk)->Ok_0;
    let r = Ok::<Vec<u8>, VerifyError>(payload);
    let at = choose|at: u64| #[trigger] checked(token, key, policy, at, now, r);
    let claims = token_check(token, key, policy, at)->Ok_0;
    assert(came_to(token, key, policy, Ok(claims)));
}

/// A step in the check of a token whose header names a key is one in the search for the key, and
/// changes the client as that does. It asks for what the search asks for, fails where the search
/// fails, and checks the token where the key is found, for the issuer of the client.
pub proof fn law_checks_follow_the_search(
    s: ClientView,
    token: Seq<char>,
    audience: Seq<Seq<char>>,
    validate_nbf: bool,
    stage: KeyStage,
    event: KeyEvent,
    now: Moment,
    after: ClientView,
    next: KeyStage,
    action: VerifyAction,
)
    requires
        verify_step(s, token, audience, validate_nbf, stage, event, now, after, next, action),
    ensures
        jwt_header(token) matches Err(e) ==> (action matches VerifyAction::Fail(x) && x@
            == VerifyErrorView::Header(e) && after == s && next == KeyStage::Done),
        jwt_header(token) matches Ok(header) ==> match header.kid {
            None => action matches VerifyAction::Fail(x) && x@ == VerifyErrorView::MissingKid
                && after == s && next == KeyStage::Done,
            Some(kid) => {
                let search = key_step(s, kid, stage, event, now.ticks);
                let policy = policy_for(header.alg, s.issuer, audience, validate_nbf);
                &&& after == search.0
                &&& next == search.1
                &&& action matches VerifyAction::FetchDiscovery(u) ==> search.2
                    == KeyActionView::FetchDiscovery(u@)
                &&& action matches VerifyAction::FetchJwks(u) ==> search.2 == KeyActionView::FetchJwks(
                    u@,
                )
                &&& action matches VerifyAction::Verified(payload) ==> (
                search.2 matches KeyActionView::Use(jwk) && verified_under(
                    jwk,
                    token,
                    policy,
                    now.wall.secs,
                    Ok(payload),
                ))
                &&& action matches VerifyAction::Fail(e) ==> {
                    ||| search.2 == KeyActionView::Fail(e@)
                    ||| search.2 matches KeyActionView::Use(jwk) && verified_under(
                        jwk,
                        token,
                        policy,
                        now.wall.secs,
                        Err(e),
                    )
                }
            },
        },
{
}

/// An authorization request carries the client, where it is called back, what is asked for, its state
/// and its challenge, each once and in its own pair.
pub proof fn law_requests(
    client_id: Seq<char>,
    redirect_uri: Seq<char>,
    scope: Seq<char>,
    state: Seq<char>,
    challenge: Seq<char>,
)
    ensures
        ({
            let pairs = request_pairs(client_id, redirect_uri, scope, state, challenge);
            &&& pairs.len() == 7
            &&& pairs.contains(("response_type"@, "code"@))
            &&& pairs.contains(("client_id"@, client_id))
            &&& pairs.contains(("redirect_uri"@, redirect_uri))
            &&& pairs.contains(("scope"@, scope))
            &&& pairs.contains(("state"@, state))
            &&& pairs.contains(("code_challenge"@, challenge))
            &&& pairs.contains(("code_challenge_method"@, "S256"@))
        }),
{
    let pairs = request_pairs(client_id, redirect_uri, scope, state, challenge);
    assert(pairs[0] == ("response_type"@, "code"@));
    assert(pairs[1] == ("client_id"@, client_id));
    assert(pairs[2] == ("redirect_uri"@, redirect_uri));
    assert(pairs[3] == ("scope"@, scope));
    assert(pairs[4] == ("state"@, state));
    assert(pairs[5] == ("code_challenge"@, challenge));
    assert(pairs[6] == ("code_challenge_method"@, "S256"@));
}

/// The pairs of a client's request are its own, with the scopes that are asked for in order and the
/// challenge in place of the verifier.
pub proof fn law_authorizations(
    client: OidcClient,
    pkce: PkcePair,
    state: Seq<char>,
    scopes: Seq<Seq<char>>,
)
    ensures
        ({
            let pairs = client.authorization(pkce, state, scopes);
            &&& pairs.len() == 7
            &&& pairs.contains(("client_id"@, client@.client_id))
            &&& pairs.contains(("redirect_uri"@, client@.redirect_uri))
            &&& pairs.contains(("scope"@, joined(scopes, " "@)))
            &&& pairs.contains(("state"@, state))
            &&& pairs.contains(("code_challenge"@, pkce.challenge@))
        }),
{
    law_requests(
        client@.client_id,
        client@.redirect_uri,
        joined(scopes, " "@),
        state,
        pkce.challenge@,
    );
}

/// The form that exchanges a code has each of its fields once, and the secret of the client if and
/// only if it has one.
pub proof fn law_exchanges(
    code: Seq<char>,
    redirect_uri: Seq<char>,
    client_id: Seq<char>,
    verifier: Seq<char>,
    secret: Option<Seq<char>>,
)
    ensures
        ({
            let form = exchange_fields(code, redirect_uri, client_id, verifier, secret);
            &&& form.len() == if secret is Some { 6int } else { 5int }
            &&& form.contains(("grant_type"@, "authorization_code"@))
            &&& form.contains(("code"@, code))
            &&& form.contains(("redirect_uri"@, redirect_uri))
            &&& form.contains(("client_id"@, client_id))
            &&& form.contains(("code_verifier"@, verifier))
            &&& secret matches Some(s) ==> form.contains(("client_secret"@, s))
        }),
{
    let form = exchange_fields(code, redirect_uri, client_id, verifier, secret);
    assert(form[0] == ("grant_type"@, "authorization_code"@));
    assert(form[1] == ("code"@, code));
    assert(form[2] == ("redirect_uri"@, redirect_uri));
    assert(form[3] == ("client_id"@, client_id));
    assert(form[4] == ("code_verifier"@, verifier));
    if let Some(s) = secret {
        assert(form[5] == ("client_secret"@, s));
    }
}

/// The message of an error ends with what the error holds.
pub proof fn law_refusal_messages(text: Seq<char>)
    ensures
        verify_message(VerifyErrorView::Header(text)) == "decode jwt header: "@ + text,
        verify_message(VerifyErrorView::UnknownKid(text)) == "kid "@ + text
            + " not in the issuer's JWKS"@,
        verify_message(VerifyErrorView::Key(text)) == "build decoding key: "@ + text,
        verify_message(VerifyErrorView::Claims(text)) == "verify claims: "@ + text,
{
}

/// A client that has learned nothing of its issuer yet.
pub open spec fn new_client(
    issuer: Seq<char>,
    client_id: Seq<char>,
    client_secret: Option<Seq<char>>,
    redirect_uri: Seq<char>,
) -> ClientView {
    ClientView {
        issuer,
        client_id,
        client_secret,
        redirect_uri,
        discovery: None,
        jwks: None,
        refetched_at: None,
    }
}

/// A client with what its issuer publishes of itself.
pub open spec fn informed(s: ClientView, doc: DiscoveryDoc) -> ClientView {
    ClientView { discovery: Some(doc), ..s }
}

/// A client that is about to fetch the keys on account of an unknown key, where it may, and whether it
/// may.
pub open spec fn refetch_begun(s: ClientView, now: u128) -> (ClientView, bool) {
    if may_refetch(s.refetched_at, now) {
        (ClientView { refetched_at: Some(now), ..s }, true)
    } else {
        (s, false)
    }
}

/// The text of an error where the token was an identity token.
pub open spec fn id_token_refusal(e: VerifyErrorView) -> Seq<char> {
    "verify id_token: "@ + verify_message(e)
}

/// A client is set up with what it is given, knows nothing at first, and asks its issuer then. What it
/// learns of the issuer changes neither its setup nor the keys that it knows, and is asked for no more.
pub proof fn law_clients(
    issuer: Seq<char>,
    client_id: Seq<char>,
    client_secret: Option<Seq<char>>,
    redirect_uri: Seq<char>,
    s: ClientView,
    doc: DiscoveryDoc,
)
    ensures
        ({
            let made = new_client(issuer, client_id, client_secret, redirect_uri);
            &&& made.issuer == issuer
            &&& made.client_id == client_id
            &&& made.client_secret == client_secret
            &&& made.redirect_uri == redirect_uri
            &&& made.jwks is None
            &&& made.refetched_at is None
            &&& fetch_keys(made) == KeyActionView::FetchDiscovery(well_known(issuer))
        }),
        informed(s, doc).same_setup(s),
        informed(s, doc).jwks == s.jwks,
        informed(s, doc).refetched_at == s.refetched_at,
        informed(s, doc).discovery == Some(doc),
        fetch_keys(informed(s, doc)) == KeyActionView::FetchJwks(doc.jwks_uri@),
{
}

/// A fetch on account of an unknown key is noted when it begins, and then no other begins before the
/// cooldown has passed. Nothing else of the client changes.
pub proof fn law_refetches_are_noted(s: ClientView, now: u128, later: u128)
    ensures
        ({
            let (after, begun) = refetch_begun(s, now);
            &&& begun <==> (s.refetched_at matches Some(t) ==> now >= t + 30_000_000_000)
            &&& begun ==> after.refetched_at == Some(now)
            &&& begun ==> (refetch_begun(after, later).1 <==> later >= now + 30_000_000_000)
            &&& !begun ==> after.refetched_at == s.refetched_at
            &&& after.same_setup(s)
            &&& after.jwks == s.jwks
            &&& after.discovery == s.discovery
        }),
{
}

/// The message for an identity token says so before the reason.
pub proof fn law_identity_token_messages(text: Seq<char>)
    ensures
        id_token_refusal(VerifyErrorView::Claims(text)) == "verify id_token: "@ + ("verify claims: "@
            + text),
        id_token_refusal(VerifyErrorView::Header(text)) == "verify id_token: "@ + (
        "decode jwt header: "@ + text),
        id_token_refusal(VerifyErrorView::Key(text)) == "verify id_token: "@ + (
        "build decoding key: "@ + text),
{
}

/// What is done in the search for a key is seen as it is, and so is why a token is refused.
pub proof fn law_searches_are_seen_whole(
    jwk: jsonwebtoken::jwk::Jwk,
    text: String,
    e: VerifyError,
)
    ensures
        KeyAction::Use(jwk)@ == KeyActionView::Use(jwk),
        KeyAction::FetchDiscovery(text)@ == KeyActionView::FetchDiscovery(text@),
        KeyAction::FetchJwks(text)@ == KeyActionView::FetchJwks(text@),
        KeyAction::Fail(e)@ == KeyActionView::Fail(e@),
        VerifyError::Header(text)@ == VerifyErrorView::Header(text@),
        VerifyError::MissingKid@ == VerifyErrorView::MissingKid,
        VerifyError::UnknownKid(text)@ == VerifyErrorView::UnknownKid(text@),
        VerifyError::Keys@ == VerifyErrorView::Keys,
        VerifyError::Key(text)@ == VerifyErrorView::Key(text@),
        VerifyError::Claims(text)@ == VerifyErrorView::Claims(text@),
        VerifyError::Unread@ == VerifyErrorView::Unread,
{
}

} // verus!
