use mcpg_cli_core::clock::{Moment, Timestamp};
use mcpg_cli_core::credentials::StoredCredentials;
use mcpg_cli_core::json::Json;
use mcpg_cli_core::login::{
    callback_params, logout, run, CallbackParams, CallbackSlot, LicensePreview, Line, Login,
    LoginAction, LoginError, LoginEvent, LoginStep, LogoutStep,
};
use mcpg_cli_core::oidc::{
    DiscoveryDoc, IdTokenClaims, KeyEvent, PkcePair, TokenResponse, VerifyError,
};

#[test]
fn logout_is_idempotent_when_no_creds_present() {
    for _ in 0..2 {
        assert!(matches!(logout(false, "/s/credentials.json"), LogoutStep::Nothing(line)
            if line == "· No stored credentials at /s/credentials.json"));
    }
}

#[test]
fn logout_removes_existing_credentials_file() {
    assert!(matches!(logout(true, "/s/credentials.json"), LogoutStep::Remove(line)
        if line == "✓ Removed /s/credentials.json"));
}

fn query(pairs: &[(&str, &str)]) -> Vec<(String, String)> {
    pairs.iter().map(|(n, v)| (n.to_string(), v.to_string())).collect()
}

#[test]
fn the_callback_is_read_from_the_query() {
    let p = callback_params(&query(&[("code", "a"), ("state", "s"), ("code", "b")]));
    assert_eq!(p.code.as_deref(), Some("b"));
    assert_eq!(p.state, "s");
    assert_eq!(p.error, None);
    let p = callback_params(&query(&[("error", "access_denied")]));
    assert_eq!(p.code, None);
    assert_eq!(p.state, "");
    assert_eq!(p.error.as_deref(), Some("access_denied"));
}

#[test]
fn the_first_callback_counts() {
    let mut slot = CallbackSlot::new();
    let first = slot.offer(callback_params(&query(&[("code", "a")])));
    assert_eq!(first.unwrap().code.as_deref(), Some("a"));
    assert!(slot.offer(callback_params(&query(&[("code", "b")]))).is_none());
    assert!(slot.offer(callback_params(&query(&[("code", "c")]))).is_none());
}

fn moment(n: u128) -> Moment {
    Moment { ticks: n, wall: Timestamp { secs: 1_700_000_000 + n as i64, nanos: 9 } }
}

fn begin(issuer: &str, no_browser: bool) -> LoginStep {
    run(
        Login::Start {
            issuer_url: issuer.to_owned(),
            client_id: "mcpg-ctl".to_owned(),
            no_browser,
            program: "mcpg cloud".to_owned(),
        },
        LoginEvent::Begin,
        moment(0),
    )
}

fn doc() -> DiscoveryDoc {
    DiscoveryDoc {
        issuer: "https://idp.example".to_owned(),
        authorization_endpoint: "https://idp.example/authorize".to_owned(),
        token_endpoint: "https://idp.example/token".to_owned(),
        jwks_uri: "https://idp.example/jwks".to_owned(),
        userinfo_endpoint: None,
    }
}

fn key_set(kids: &[&str]) -> Vec<u8> {
    let keys: Vec<String> = kids
        .iter()
        .map(|kid| {
            let secret = base64::Engine::encode(
                &base64::engine::general_purpose::URL_SAFE_NO_PAD,
                kid.as_bytes(),
            );
            format!("{{\"kty\":\"oct\",\"alg\":\"HS256\",\"kid\":\"{kid}\",\"k\":\"{secret}\"}}")
        })
        .collect();
    format!("{{\"keys\":[{}]}}", keys.join(",")).into_bytes()
}

fn signed(kid: &str, secret: &str, claims: &str) -> String {
    let mut header = jsonwebtoken::Header::new(jsonwebtoken::Algorithm::HS256);
    header.kid = Some(kid.to_owned());
    let claims: serde_json::Value = serde_json::from_str(claims).unwrap();
    let key = jsonwebtoken::EncodingKey::from_secret(secret.as_bytes());
    jsonwebtoken::encode(&header, &claims, &key).unwrap()
}

const ID: &str =
    r#"{"aud":"mcpg-ctl","exp":9999999999,"iat":1,"iss":"https://idp.example","sub":"u"}"#;
const WITH_EMAIL: &str = r#"{"aud":"mcpg-ctl","email":"a@b.c","exp":9999999999,"iat":1,"iss":"https://idp.example","sub":"u"}"#;
const LICENSE: &str = r#"{"aud":"mcpg-cp","exp":9999999999,"iss":"https://idp.example","plan":"p","tenant_slug":"acme"}"#;

fn tokens(id_token: &str, license: Option<&str>) -> TokenResponse {
    TokenResponse {
        access_token: "at".to_owned(),
        id_token: id_token.to_owned(),
        refresh_token: Some("rt".to_owned()),
        token_type: None,
        expires_in: Some(3600),
        mcpg_license_jwt: license.map(str::to_owned),
    }
}

fn claims(email: Option<&str>) -> IdTokenClaims {
    IdTokenClaims {
        iss: "https://idp.example".to_owned(),
        sub: "u".to_owned(),
        aud: Json::Str("mcpg-ctl".to_owned()),
        exp: 9_999_999_999,
        iat: 1,
        email: email.map(str::to_owned),
        email_verified: None,
        name: None,
        preferred_username: None,
        nonce: None,
        extra: Vec::new(),
    }
}

fn out(lines: &[Line]) -> Vec<&str> {
    lines
        .iter()
        .map(|l| match l {
            Line::Out(s) => s.as_str(),
            Line::Note(_) => panic!("on the standard output"),
        })
        .collect()
}

fn note(lines: &[Line]) -> &str {
    match lines {
        [Line::Note(s)] => s,
        _ => panic!("one line on the standard error"),
    }
}

fn bound(no_browser: bool) -> LoginStep {
    let step = begin("https://idp.example", no_browser);
    run(
        step.next,
        LoginEvent::Bound {
            addr: "127.0.0.1:4321".to_owned(),
            pkce: PkcePair { verifier: "ver".to_owned(), challenge: "chal".to_owned() },
            state: "st".to_owned(),
        },
        moment(1),
    )
}

const URL: &str = "https://idp.example/authorize?response_type=code&client_id=mcpg-ctl\
                   &redirect_uri=http%3A%2F%2F127.0.0.1%3A4321%2Fcallback\
                   &scope=openid+email+profile&state=st&code_challenge=chal\
                   &code_challenge_method=S256";

fn waiting() -> Login {
    run(bound(true).next, LoginEvent::Discovered(doc()), moment(2)).next
}

fn callback(code: Option<&str>, state: &str) -> LoginEvent {
    LoginEvent::Callback(CallbackParams {
        code: code.map(str::to_owned),
        state: state.to_owned(),
        error: None,
    })
}

fn exchanging() -> Login {
    run(waiting(), callback(Some("c0de"), "st"), moment(3)).next
}

/// A login whose identity token passed, with the given claims.
fn reading_of(document: &str, license: Option<&str>) -> Login {
    let id = signed("k1", "k1", document);
    let step = run(exchanging(), LoginEvent::Exchanged(tokens(&id, license)), moment(4));
    assert!(matches!(&step.action, LoginAction::FetchJwks(url) if url == "https://idp.example/jwks"));
    let keys = LoginEvent::Key(KeyEvent::Fetched(key_set(&["k1"])));
    let step = run(step.next, keys, moment(5));
    assert!(matches!(&step.action, LoginAction::ReadClaims(payload) if payload == document.as_bytes()));
    step.next
}

/// A login whose identity token passed.
fn reading(license: Option<&str>) -> Login {
    reading_of(ID, license)
}

fn saved(step: LoginStep) -> (Login, StoredCredentials) {
    match step.action {
        LoginAction::Save(creds) => (step.next, creds),
        _ => panic!("the credentials are written"),
    }
}

fn error(step: LoginStep) -> LoginError {
    assert!(matches!(step.next, Login::Ended));
    assert!(step.lines.is_empty());
    match step.action {
        LoginAction::Fail(e) => e,
        _ => panic!("the login fails"),
    }
}

#[test]
fn a_login_goes_from_the_browser_to_the_stored_credentials() {
    let step = begin("https://idp.example", false);
    assert_eq!(
        out(&step.lines),
        ["mcpg cloud login", "  issuer:    https://idp.example/", "  client_id: mcpg-ctl"]
    );
    assert!(matches!(step.action, LoginAction::Bind));

    let step = bound(false);
    assert!(step.lines.is_empty());
    assert!(matches!(&step.action, LoginAction::Discover(url)
        if url == "https://idp.example/.well-known/openid-configuration"));

    let step = run(step.next, LoginEvent::Discovered(doc()), moment(2));
    assert_eq!(out(&step.lines), ["\n  → Opening browser…"]);
    assert!(matches!(&step.action, LoginAction::OpenBrowser(url) if url == URL));

    let step = run(step.next, LoginEvent::BrowserOpened, moment(2));
    assert!(step.lines.is_empty());
    assert!(matches!(step.action, LoginAction::AwaitCallback));

    let step = run(step.next, callback(Some("c0de"), "st"), moment(3));
    match &step.action {
        LoginAction::Exchange { endpoint, form } => {
            assert_eq!(endpoint, "https://idp.example/token");
            let form: Vec<(&str, &str)> =
                form.iter().map(|(n, v)| (n.as_str(), v.as_str())).collect();
            assert_eq!(
                form,
                [
                    ("grant_type", "authorization_code"),
                    ("code", "c0de"),
                    ("redirect_uri", "http://127.0.0.1:4321/callback"),
                    ("client_id", "mcpg-ctl"),
                    ("code_verifier", "ver"),
                ]
            );
        }
        _ => panic!("the code is exchanged"),
    }

    let step = run(reading_of(WITH_EMAIL, None), LoginEvent::Claims(claims(Some("a@b.c"))), moment(6));
    assert_eq!(
        out(&step.lines),
        ["  · provider returned no MCPG license — using id_token only"]
    );
    let (next, creds) = saved(step);
    assert_eq!(creds.issuer, "https://idp.example/");
    assert_eq!(creds.client_id, "mcpg-ctl");
    assert_eq!(creds.id_token, signed("k1", "k1", WITH_EMAIL));
    assert_eq!(creds.access_token, "at");
    assert_eq!(creds.refresh_token.as_deref(), Some("rt"));
    assert_eq!(creds.license_jwt, None);
    assert_eq!(creds.email.as_deref(), Some("a@b.c"));
    assert_eq!(creds.stored_at, moment(6).wall);

    let step = run(next, LoginEvent::Saved("/s/credentials.json".to_owned()), moment(7));
    assert_eq!(
        out(&step.lines),
        ["  ✓ Signed in. Credentials written to /s/credentials.json"]
    );
    assert!(matches!(step.action, LoginAction::Done));
    assert!(matches!(step.next, Login::Ended));
}

#[test]
fn without_a_browser_the_url_is_shown() {
    let step = run(bound(true).next, LoginEvent::Discovered(doc()), moment(2));
    assert_eq!(
        out(&step.lines),
        [format!("\n  → Open this URL to sign in:\n    {URL}\n")]
    );
    assert!(matches!(step.action, LoginAction::AwaitCallback));

    let step = run(bound(false).next, LoginEvent::Discovered(doc()), moment(2));
    let step = run(step.next, LoginEvent::BrowserFailed("no display".to_owned()), moment(2));
    assert!(matches!(&step.lines[0], Line::Note(s) if s == "  ! browser open failed: no display"));
    assert!(matches!(&step.lines[1], Line::Out(s)
        if *s == format!("    paste this URL manually:\n    {URL}")));
    assert_eq!(step.lines.len(), 2);
    assert!(matches!(step.action, LoginAction::AwaitCallback));
}

#[test]
fn an_issuer_must_be_a_url() {
    let e = error(begin("idp.example", false));
    assert!(matches!(&e, LoginError::Issuer(_)));
    assert_eq!(e.message(), "relative URL without a base");
}

#[test]
fn an_authorization_endpoint_must_be_a_url() {
    let mut bad = doc();
    bad.authorization_endpoint = "/authorize".to_owned();
    let e = error(run(bound(true).next, LoginEvent::Discovered(bad), moment(2)));
    assert!(matches!(&e, LoginError::AuthorizeUrl(_)));
    assert_eq!(e.message(), "relative URL without a base");
    assert_eq!(LoginError::UrlTooLong.message(), "authorize URL too long");
}

#[test]
fn another_state_ends_the_login() {
    for code in [None, Some("c0de")] {
        for state in ["", "ST", "st "] {
            let e = error(run(waiting(), callback(code, state), moment(3)));
            assert!(matches!(&e, LoginError::StateMismatch));
            assert_eq!(e.message(), "OIDC state mismatch — possible CSRF, bailing");
        }
    }
    let e = error(run(waiting(), callback(None, "st"), moment(3)));
    assert!(matches!(&e, LoginError::MissingCode));
    assert_eq!(e.message(), "no code in callback");
}

#[test]
fn a_refusal_of_the_token_endpoint_is_told() {
    let e = error(run(exchanging(), LoginEvent::Refused("invalid_grant".to_owned()), moment(4)));
    assert_eq!(e.message(), "token endpoint: invalid_grant");
}

#[test]
fn an_identity_token_that_fails_its_check_ends_the_login() {
    let forged = signed("k1", "other", ID);
    let step = run(exchanging(), LoginEvent::Exchanged(tokens(&forged, None)), moment(4));
    let keys = LoginEvent::Key(KeyEvent::Fetched(key_set(&["k1"])));
    let e = error(run(step.next, keys, moment(5)));
    assert!(matches!(&e, LoginError::IdToken(VerifyError::Claims(_))));
    assert_eq!(e.message(), "verify id_token: verify claims: InvalidSignature");

    let e = error(run(exchanging(), LoginEvent::Exchanged(tokens("junk", None)), moment(4)));
    assert_eq!(e.message(), "verify id_token: decode jwt header: InvalidToken");

    let id = signed("k1", "k1", ID);
    let step = run(exchanging(), LoginEvent::Exchanged(tokens(&id, None)), moment(4));
    let e = error(run(step.next, LoginEvent::Failed("no network".to_owned()), moment(5)));
    assert!(matches!(&e, LoginError::IdTokenCheck(_)));
    assert_eq!(e.message(), "verify id_token: no network");

    let e = error(run(reading(None), LoginEvent::Failed("no sub".to_owned()), moment(5)));
    assert_eq!(e.message(), "verify id_token: no sub");
}

#[test]
fn a_license_is_checked_and_shown() {
    let license = signed("k1", "k1", LICENSE);
    let step = run(reading(Some(&license)), LoginEvent::Claims(claims(None)), moment(6));
    assert!(step.lines.is_empty());
    assert!(matches!(&step.action, LoginAction::ReadLicense(payload) if payload == LICENSE.as_bytes()));
    let preview = LicensePreview { plan: "p".to_owned(), tenant_slug: "acme".to_owned() };
    let step = run(step.next, LoginEvent::License(preview), moment(7));
    assert_eq!(out(&step.lines), ["  ✓ license:   plan=p tenant=acme"]);
    let (_, creds) = saved(step);
    assert_eq!(creds.license_jwt.as_deref(), Some(license.as_str()));
    assert_eq!(creds.email, None);
}

#[test]
fn a_license_that_is_not_taken_ends_no_login() {
    // For another audience.
    let wrong = signed("k1", "k1", ID);
    let step = run(reading(Some(&wrong)), LoginEvent::Claims(claims(None)), moment(6));
    assert_eq!(
        note(&step.lines),
        "  ! license verify failed: verify claims: InvalidAudience"
    );
    let (_, creds) = saved(step);
    assert_eq!(creds.license_jwt.as_deref(), Some(wrong.as_str()));

    // Under a key that the issuer published since, which cannot be fetched.
    let rotated = signed("k2", "k2", LICENSE);
    let step = run(reading(Some(&rotated)), LoginEvent::Claims(claims(None)), moment(6));
    assert!(matches!(&step.action, LoginAction::FetchJwks(_)));
    let failed = run(step.next, LoginEvent::Failed("no network".to_owned()), moment(7));
    assert_eq!(note(&failed.lines), "  ! license verify failed: no network");
    saved(failed);

    // Without the claims that are shown.
    let license = signed("k1", "k1", LICENSE);
    let step = run(reading(Some(&license)), LoginEvent::Claims(claims(None)), moment(6));
    let step = run(step.next, LoginEvent::Failed("no plan".to_owned()), moment(7));
    assert_eq!(note(&step.lines), "  ! license verify failed: no plan");
    saved(step);
}

#[test]
fn other_failures_end_the_login() {
    let step = begin("https://idp.example", false);
    let e = error(run(step.next, LoginEvent::Failed("in use".to_owned()), moment(1)));
    assert!(matches!(&e, LoginError::Outside(_)));
    assert_eq!(e.message(), "in use");
    let e = error(run(waiting(), LoginEvent::Failed("deadline".to_owned()), moment(1)));
    assert_eq!(e.message(), "deadline");
    let e = error(run(waiting(), LoginEvent::BrowserOpened, moment(1)));
    assert!(matches!(&e, LoginError::OutOfTurn));
    assert_eq!(e.message(), "event out of turn");
    let e = error(run(Login::Ended, LoginEvent::Failed("late".to_owned()), moment(1)));
    assert!(matches!(&e, LoginError::OutOfTurn));
}

#[test]
fn claims_that_the_token_does_not_carry_end_the_login() {
    let e = error(run(reading(None), LoginEvent::Claims(claims(Some("a@b.c"))), moment(6)));
    assert!(matches!(&e, LoginError::IdToken(VerifyError::Unread)));
    assert_eq!(
        e.message(),
        "verify id_token: verify claims: claims differ from the token"
    );
    let mut other = claims(None);
    other.sub = "v".to_owned();
    error(run(reading(None), LoginEvent::Claims(other), moment(6)));
}

#[test]
fn a_login_that_fails_writes_nothing() {
    // A failure at each place, and no credentials before it.
    let step = run(exchanging(), LoginEvent::Exchanged(tokens(&signed("k1", "k1", ID), None)), moment(4));
    for flow in [begin("https://idp.example", true).next, bound(true).next, waiting(), step.next] {
        error(run(flow, LoginEvent::Failed("stopped".to_owned()), moment(9)));
    }
    // When the writing itself fails, that is told.
    let step = run(reading(None), LoginEvent::Claims(claims(None)), moment(6));
    let (next, _) = saved(step);
    let e = error(run(next, LoginEvent::Failed("disk full".to_owned()), moment(7)));
    assert_eq!(e.message(), "disk full");
}
