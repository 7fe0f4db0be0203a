use mcpg_cli_core::clock::Timestamp;
use mcpg_cli_core::credentials::StoredCredentials;
use mcpg_cli_core::json::{parse_json, Json, JsonNumber};
use mcpg_cli_core::link::Link;
use mcpg_cli_core::refresh::{
    claims_expiry, ensure_fresh, id_token_expiry, on_endpoint, on_load, refresh_form, rotate,
    still_fresh, transport_ok, Refresh, RefreshAction, RefreshError, RefreshEvent,
    REFRESH_SKEW_SECS,
};

fn encode(bytes: &[u8]) -> String {
    base64::Engine::encode(&base64::engine::general_purpose::URL_SAFE_NO_PAD, bytes)
}

fn fake_jwt(exp: i64) -> String {
    let header = encode(b"{\"alg\":\"none\"}");
    let payload = encode(format!("{{\"exp\":{exp}}}").as_bytes());
    format!("{header}.{payload}.sig")
}

const NOW: i64 = 1_700_000_000;

fn at(secs: i64) -> Timestamp {
    Timestamp { secs, nanos: 5 }
}

fn creds(issuer: &str, id_token: String) -> StoredCredentials {
    StoredCredentials {
        issuer: issuer.to_owned(),
        client_id: "mcpg-ctl".to_owned(),
        id_token,
        access_token: "old-at".to_owned(),
        refresh_token: Some("rt-1".to_owned()),
        license_jwt: Some("lic.jwt".to_owned()),
        email: Some("a@b.c".to_owned()),
        stored_at: at(NOW - 100),
    }
}

fn pairs(form: &[(String, String)]) -> Vec<(&str, &str)> {
    form.iter().map(|(n, v)| (n.as_str(), v.as_str())).collect()
}

#[test]
fn expiry_decodes_without_verification() {
    assert_eq!(id_token_expiry(&fake_jwt(1_700_000_000)), Some(1_700_000_000));
    assert_eq!(id_token_expiry("not-a-jwt"), None);
    assert_eq!(id_token_expiry("a.!!!.c"), None);
    let payload = encode(b"{\"exp\":1700000000.5}");
    let header = encode(b"{}");
    assert_eq!(
        id_token_expiry(&format!("{header}.{payload}.s")),
        Some(1_700_000_000)
    );
}

#[test]
fn expiry_is_any_number_held_to_its_range() {
    let expiry = |claims: &str| id_token_expiry(&format!("h.{}", encode(claims.as_bytes())));
    assert_eq!(expiry("{\"exp\":-7}"), Some(-7));
    assert_eq!(expiry("{\"exp\":9223372036854775807}"), Some(i64::MAX));
    assert_eq!(expiry("{\"exp\":18446744073709551615}"), Some(i64::MAX));
    assert_eq!(expiry("{\"exp\":1e300}"), Some(i64::MAX));
    assert_eq!(expiry("{\"exp\":-1e300}"), Some(i64::MIN));
    assert_eq!(expiry("{\"exp\":\"7\"}"), None);
    assert_eq!(expiry("{}"), None);
    assert_eq!(expiry("not json"), None);
    let claims = Json::Object(vec![("exp".to_owned(), Json::Number(JsonNumber::Fractional(3)))]);
    assert_eq!(claims_expiry(&claims), Some(3));
    assert_eq!(claims_expiry(&Json::Null), None);
}

#[test]
fn ensure_fresh_is_a_noop_without_creds_or_when_fresh() {
    let (next, action) = ensure_fresh(Refresh::Start, RefreshEvent::Loaded { creds: None, now: NOW });
    assert!(matches!(next, Refresh::Ended));
    assert!(matches!(action, RefreshAction::Done(false)));

    let fresh = creds("http://127.0.0.1:1", fake_jwt(NOW + 3600));
    let (next, action) =
        ensure_fresh(Refresh::Start, RefreshEvent::Loaded { creds: Some(fresh), now: NOW });
    assert!(matches!(next, Refresh::Ended));
    assert!(matches!(action, RefreshAction::Done(false)));
}

#[test]
fn ensure_fresh_redeems_an_expired_token_and_persists_rotation() {
    let expired = creds("http://127.0.0.1:4000", fake_jwt(NOW - 10));
    let (next, action) =
        ensure_fresh(Refresh::Start, RefreshEvent::Loaded { creds: Some(expired), now: NOW });
    assert!(matches!(action, RefreshAction::Discover(url)
        if url == "http://127.0.0.1:4000/.well-known/openid-configuration"));

    let body = b"{\"token_endpoint\":\"http://127.0.0.1:4000/oauth/token\"}".to_vec();
    let (next, action) = ensure_fresh(next, RefreshEvent::Discovered(body));
    match action {
        RefreshAction::Redeem { endpoint, form } => {
            assert_eq!(endpoint, "http://127.0.0.1:4000/oauth/token");
            assert_eq!(
                pairs(&form),
                [
                    ("grant_type", "refresh_token"),
                    ("refresh_token", "rt-1"),
                    ("client_id", "mcpg-ctl")
                ]
            );
        }
        _ => panic!("the refresh token is sent"),
    }

    let body = b"{\"id_token\":\"new.id.token\",\"access_token\":\"new-at\",\
                 \"refresh_token\":\"rt-2\"}"
        .to_vec();
    let (next, action) = ensure_fresh(next, RefreshEvent::Replied { body, wall: at(NOW + 1) });
    match action {
        RefreshAction::Save(after) => {
            assert_eq!(after.id_token, "new.id.token");
            assert_eq!(after.access_token, "new-at");
            assert_eq!(after.refresh_token.as_deref(), Some("rt-2"), "rotated");
            assert_eq!(after.license_jwt.as_deref(), Some("lic.jwt"), "license preserved");
            assert_eq!(after.email.as_deref(), Some("a@b.c"));
            assert_eq!(after.issuer, "http://127.0.0.1:4000");
            assert_eq!(after.client_id, "mcpg-ctl");
            assert_eq!(after.stored_at, at(NOW + 1));
        }
        _ => panic!("the new credentials are written"),
    }

    let (next, action) = ensure_fresh(next, RefreshEvent::Saved);
    assert!(matches!(next, Refresh::Ended));
    assert!(matches!(action, RefreshAction::Done(true)), "refresh performed");
}

#[test]
fn a_minute_must_be_left() {
    assert_eq!(REFRESH_SKEW_SECS, 60);
    assert!(still_fresh(Some(NOW + 60), NOW));
    assert!(!still_fresh(Some(NOW + 59), NOW));
    let (_, action) = ensure_fresh(
        Refresh::Start,
        RefreshEvent::Loaded { creds: Some(creds("https://i", fake_jwt(NOW + 60))), now: NOW },
    );
    assert!(matches!(action, RefreshAction::Done(false)));
    assert!(!still_fresh(None, NOW));
    assert!(still_fresh(Some(i64::MAX), i64::MIN));
    assert!(!still_fresh(Some(i64::MIN), i64::MAX));
}

#[test]
fn a_login_without_a_refresh_token_is_left_alone() {
    let mut stale = creds("https://i", fake_jwt(NOW - 10));
    stale.refresh_token = None;
    let (next, action) = on_load(stale, Some(NOW - 10), NOW);
    assert!(matches!(next, Refresh::Ended));
    assert!(matches!(action, RefreshAction::Done(false)));
    // A token that says nothing of its end is due.
    let (_, action) = on_load(creds("https://i/", "opaque".to_owned()), None, NOW);
    assert!(matches!(action, RefreshAction::Discover(url)
        if url == "https://i/.well-known/openid-configuration"));
}

fn discovered(body: &[u8]) -> (Refresh, RefreshAction) {
    ensure_fresh(
        Refresh::Discovering(creds("https://i", "t".to_owned())),
        RefreshEvent::Discovered(body.to_vec()),
    )
}

fn endpoint(url: &str) -> RefreshAction {
    discovered(format!("{{\"token_endpoint\":\"{url}\"}}").as_bytes()).1
}

#[test]
fn a_refresh_token_is_sent_where_others_cannot_read_it() {
    for url in [
        "https://idp.example/token",
        "HTTPS://idp.example/token",
        "http://localhost:8080/token",
        "http://127.0.0.1/token",
        "http://[::1]:8080/token",
    ] {
        assert!(matches!(endpoint(url), RefreshAction::Redeem { endpoint, .. } if endpoint == url));
    }
    for url in [
        "http://idp.example/token",
        "http://localhost.example/token",
        "http://127.0.0.2/token",
        "http://[::2]:8080/token",
        "ftp://idp.example/token",
    ] {
        assert!(matches!(endpoint(url), RefreshAction::Refuse(endpoint) if endpoint == url));
    }
    // What is no URL cannot be sent to, and is told by whoever tries.
    assert!(matches!(endpoint("token"), RefreshAction::Redeem { .. }));
}

#[test]
fn the_transport_is_judged_by_scheme_and_host() {
    let link = |scheme: &str, host: Option<&str>| {
        Ok(Link {
            text: String::new(),
            scheme: scheme.to_owned(),
            host: host.map(str::to_owned),
        })
    };
    assert!(transport_ok(&link("https", Some("idp.example"))));
    assert!(transport_ok(&link("https", None)));
    assert!(transport_ok(&link("http", Some("[::1]"))));
    assert!(!transport_ok(&link("http", None)));
    assert!(!transport_ok(&link("http", Some("idp.example"))));
    assert!(transport_ok(&Err("no URL".to_owned())));
    let (next, action) = on_endpoint(
        creds("https://i", "t".to_owned()),
        "http://x",
        &link("http", Some("x")),
    );
    assert!(matches!(next, Refresh::Ended));
    assert!(matches!(action, RefreshAction::Refuse(e) if e == "http://x"));
}

#[test]
fn discovery_must_name_a_token_endpoint() {
    let (next, action) = discovered(b"<html>");
    assert!(matches!(next, Refresh::Ended));
    assert!(matches!(action, RefreshAction::Fail(RefreshError::Discovery)));
    for body in ["{}", "{\"token_endpoint\":7}", "[]"] {
        let (_, action) = discovered(body.as_bytes());
        assert!(matches!(action, RefreshAction::Fail(RefreshError::NoTokenEndpoint)));
    }
    assert_eq!(
        RefreshError::NoTokenEndpoint.message(),
        "issuer discovery has no token_endpoint"
    );
    assert_eq!(RefreshError::Discovery.message(), "error decoding response body");
}

fn redeeming(event: RefreshEvent) -> (Refresh, RefreshAction) {
    ensure_fresh(Refresh::Redeeming(creds("https://i", "t".to_owned())), event)
}

#[test]
fn a_refusal_leaves_the_login_as_it_is() {
    let (next, action) = redeeming(RefreshEvent::Rejected);
    assert!(matches!(next, Refresh::Ended));
    assert!(matches!(action, RefreshAction::Done(false)));
    let body = b"{\"access_token\":\"new-at\"}".to_vec();
    let (next, action) = redeeming(RefreshEvent::Replied { body, wall: at(NOW) });
    assert!(matches!(next, Refresh::Ended));
    assert!(matches!(action, RefreshAction::Done(false)));
    let body = b"oops".to_vec();
    let (next, action) = redeeming(RefreshEvent::Replied { body, wall: at(NOW) });
    assert!(matches!(next, Refresh::Ended));
    assert!(matches!(action, RefreshAction::Fail(RefreshError::Answer)));
    assert_eq!(RefreshError::Answer.message(), "error decoding response body");
}

#[test]
fn tokens_that_the_issuer_does_not_renew_are_kept() {
    let answer = parse_json(b"{\"id_token\":\"new\",\"refresh_token\":null}").unwrap();
    let after = rotate(creds("https://i", "t".to_owned()), &answer, at(7)).unwrap();
    assert_eq!(after.id_token, "new");
    assert_eq!(after.access_token, "old-at");
    assert_eq!(after.refresh_token.as_deref(), Some("rt-1"));
    assert_eq!(after.stored_at, at(7));
    assert!(rotate(creds("https://i", "t".to_owned()), &Json::Null, at(7)).is_none());
}

#[test]
fn events_out_of_turn_end_the_renewal() {
    let (next, action) = ensure_fresh(Refresh::Start, RefreshEvent::Saved);
    assert!(matches!(next, Refresh::Ended));
    assert!(matches!(action, RefreshAction::Fail(RefreshError::OutOfTurn)));
    let (_, action) = ensure_fresh(Refresh::Saving, RefreshEvent::Rejected);
    assert!(matches!(action, RefreshAction::Fail(RefreshError::OutOfTurn)));
    assert_eq!(RefreshError::OutOfTurn.message(), "event out of turn");
}

#[test]
fn the_form_holds_the_grant_the_token_and_the_client() {
    assert_eq!(
        pairs(&refresh_form("rt", "cli")),
        [("grant_type", "refresh_token"), ("refresh_token", "rt"), ("client_id", "cli")]
    );
}

#[test]
fn a_loopback_issuer_on_ipv6_renews_the_login() {
    let stale = creds("http://[::1]:8080", fake_jwt(NOW - 10));
    let (next, _) =
        ensure_fresh(Refresh::Start, RefreshEvent::Loaded { creds: Some(stale), now: NOW });
    let body = b"{\"token_endpoint\":\"http://[::1]:8080/token\"}".to_vec();
    let (next, _) = ensure_fresh(next, RefreshEvent::Discovered(body));
    let body = b"{\"id_token\":\"new\"}".to_vec();
    let (next, action) = ensure_fresh(next, RefreshEvent::Replied { body, wall: at(NOW) });
    assert!(matches!(action, RefreshAction::Save(c) if c.id_token == "new"));
    let (_, action) = ensure_fresh(next, RefreshEvent::Saved);
    assert!(matches!(action, RefreshAction::Done(true)));
}
