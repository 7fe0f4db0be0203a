use mcpg_cli_core::clock::{Moment, Timestamp};
use mcpg_cli_core::json::{json_of, parse_json, Json, JsonNumber};
use mcpg_cli_core::jwt::{hold_to_policy, hold_to_time, TokenPolicy};
use mcpg_cli_core::link::request_fits;
use mcpg_cli_core::oidc::{
    id_token_claims, json_text, random_state, state_from_random, well_known_url, DiscoveryDoc,
    DiscoveryStep, IdTokenClaims, KeyAction, KeyEvent, KeyStage, OidcClient, PkcePair,
    VerifyAction, VerifyError, JWKS_REFETCH_COOLDOWN, LEEWAY,
};

fn claims(extra: Vec<(&str, Json)>) -> IdTokenClaims {
    let mut all = IdTokenClaims {
        iss: "https://idp.example".to_owned(),
        sub: "user-1".to_owned(),
        aud: Json::Str("mcpg-cp".to_owned()),
        exp: 9_999_999_999,
        iat: 1_700_000_000,
        email: Some("alice@example.com".to_owned()),
        email_verified: None,
        name: None,
        preferred_username: None,
        nonce: None,
        extra: Vec::new(),
    };
    for (name, value) in extra {
        if name == "nonce" {
            all.nonce = value.as_str().map(str::to_owned);
        } else {
            all.extra.push((name.to_owned(), value));
        }
    }
    all
}

fn text(s: &str) -> Json {
    Json::Str(s.to_owned())
}

fn number(document: &str) -> Json {
    json_of(serde_json::from_str(document).unwrap())
}

#[test]
fn string_claim_reads_a_custom_string_claim() {
    let c = claims(vec![("tenant", text("acme"))]);
    assert_eq!(c.string_claim("tenant").as_deref(), Some("acme"));
}

#[test]
fn string_claim_coerces_an_integer_claim() {
    let c = claims(vec![("org_id", number("42"))]);
    assert_eq!(c.string_claim("org_id").as_deref(), Some("42"));
    let big = claims(vec![("org_id", number("9007199254740993"))]);
    assert_eq!(big.string_claim("org_id").as_deref(), Some("9007199254740993"));
}

#[test]
fn string_claim_rejects_non_integer_numbers() {
    let frac = claims(vec![("org_id", number("1000.5"))]);
    assert_eq!(frac.string_claim("org_id"), None);
    let sci = claims(vec![("org_id", number("1e20"))]);
    assert_eq!(sci.string_claim("org_id"), None);
}

#[test]
fn string_claim_trims_and_rejects_blank() {
    let c = claims(vec![("tenant", text("  spaced  "))]);
    assert_eq!(c.string_claim("tenant").as_deref(), Some("spaced"));
    let blank = claims(vec![("tenant", text("   "))]);
    assert_eq!(blank.string_claim("tenant"), None);
}

#[test]
fn string_claim_absent_is_none() {
    let c = claims(vec![]);
    assert_eq!(c.string_claim("tenant"), None);
}

#[test]
fn string_claim_non_scalar_is_none() {
    let arr = claims(vec![("tenant", Json::Array(vec![text("a"), text("b")]))]);
    assert_eq!(arr.string_claim("tenant"), None);
    let obj = claims(vec![(
        "tenant",
        Json::Object(vec![("x".to_owned(), Json::Number(JsonNumber::Unsigned(1)))]),
    )]);
    assert_eq!(obj.string_claim("tenant"), None);
}

#[test]
fn string_claim_resolves_named_fields() {
    let c = claims(vec![]);
    assert_eq!(c.string_claim("sub").as_deref(), Some("user-1"));
    assert_eq!(c.string_claim("email").as_deref(), Some("alice@example.com"));
}

#[test]
fn string_claim_reaches_every_named_field_uniformly() {
    let c = claims(vec![("nonce", text("the-nonce"))]);
    assert_eq!(c.string_claim("nonce").as_deref(), Some("the-nonce"));
}

#[test]
fn string_claim_knows_the_kind_of_every_field() {
    let mut c = claims(vec![("email", text("other@example.com"))]);
    c.email_verified = Some(true);
    c.name = Some(" Alice ".to_owned());
    c.preferred_username = Some("alice".to_owned());
    c.iat = -5;
    assert_eq!(c.string_claim("iss").as_deref(), Some("https://idp.example"));
    assert_eq!(c.string_claim("aud").as_deref(), Some("mcpg-cp"));
    assert_eq!(c.string_claim("exp").as_deref(), Some("9999999999"));
    assert_eq!(c.string_claim("iat").as_deref(), Some("-5"));
    assert_eq!(c.string_claim("email_verified"), None);
    assert_eq!(c.string_claim("name").as_deref(), Some("Alice"));
    assert_eq!(c.string_claim("preferred_username").as_deref(), Some("alice"));
    assert_eq!(c.string_claim("nonce"), None);
    assert_eq!(c.string_claim("email").as_deref(), Some("other@example.com"));
    assert_eq!(json_text(&Json::Bool(true)), None);
    assert_eq!(json_text(&number("-7")).as_deref(), Some("-7"));
}

#[test]
fn the_order_of_other_claims_does_not_matter() {
    let a = claims(vec![("x", text("1")), ("sub", text("2")), ("y", number("3"))]);
    let b = claims(vec![("y", number("3")), ("x", text("1")), ("sub", text("2"))]);
    for name in ["x", "y", "sub", "iss", "z"] {
        assert_eq!(a.string_claim(name), b.string_claim(name));
    }
    assert_eq!(a.string_claim("sub").as_deref(), Some("2"));
}

#[test]
fn different_integers_stay_different_texts() {
    let texts: Vec<String> = ["0", "-1", "1", "10", "-10", "9007199254740992", "9007199254740993"]
        .iter()
        .map(|n| json_text(&number(n)).unwrap())
        .collect();
    for (i, a) in texts.iter().enumerate() {
        for b in &texts[i + 1..] {
            assert_ne!(a, b);
        }
    }
}

#[test]
fn copies_of_claims_are_the_same() {
    let a = claims(vec![("x", text("1")), ("y", Json::Array(vec![number("3")]))]);
    let b = a.clone();
    assert_eq!(b.extra, a.extra);
    assert_eq!(b.aud, a.aud);
    for name in ["x", "iss", "sub", "exp", "iat", "email"] {
        assert_eq!(a.string_claim(name), b.string_claim(name));
    }
}

#[test]
fn claims_that_were_read_are_those_that_the_token_carries() {
    let carried = parse_json(
        br#"{"iss":"https://idp.example","sub":"user-1","aud":"mcpg-cp","exp":9999999999,
            "iat":1700000000,"email":"alice@example.com","name":null}"#,
    )
    .unwrap();
    assert!(id_token_claims(&carried, claims(vec![])).is_ok());
    let mut other = claims(vec![]);
    other.iss = "https://else.example".to_owned();
    assert!(matches!(id_token_claims(&carried, other), Err(VerifyError::Unread)));
    let mut other = claims(vec![]);
    other.aud = Json::Array(vec![text("mcpg-cp")]);
    assert!(matches!(id_token_claims(&carried, other), Err(VerifyError::Unread)));
    let mut other = claims(vec![]);
    other.email_verified = Some(true);
    assert!(matches!(id_token_claims(&carried, other), Err(VerifyError::Unread)));
    // What is held beside the fields is what the token carries beside them, and nothing else.
    let with_tenant = |tenant: &str| match &carried {
        Json::Object(members) => {
            let mut members = members.clone();
            members.push(("tenant".to_owned(), text(tenant)));
            Json::Object(members)
        }
        _ => unreachable!(),
    };
    let read = id_token_claims(&with_tenant("acme"), claims(vec![("tenant", text("acme"))]));
    assert_eq!(read.unwrap().string_claim("tenant").as_deref(), Some("acme"));
    for extra in [
        vec![],
        vec![("tenant", text("other"))],
        vec![("tenant", text("acme")), ("more", text("x"))],
        vec![("tenant", text("acme")), ("sub", text("user-1"))],
    ] {
        let read = id_token_claims(&with_tenant("acme"), claims(extra));
        assert!(matches!(read, Err(VerifyError::Unread)));
    }
    for missing in ["iss", "sub", "aud", "exp", "iat"] {
        let fewer = match &carried {
            Json::Object(members) => Json::Object(
                members.iter().filter(|(name, _)| name != missing).cloned().collect(),
            ),
            _ => unreachable!(),
        };
        let e = id_token_claims(&fewer, claims(vec![])).unwrap_err();
        assert_eq!(e.message(), "verify claims: claims differ from the token");
    }
}

#[test]
fn the_account_is_the_email_or_the_user_name_or_the_subject() {
    let mut c = claims(vec![]);
    c.preferred_username = Some("alice".to_owned());
    assert_eq!(c.resolved_email(), "alice@example.com");
    c.email = None;
    assert_eq!(c.resolved_email(), "alice");
    c.preferred_username = None;
    assert_eq!(c.resolved_email(), "user-1");
}

#[test]
fn the_challenge_is_the_digest_of_the_verifier() {
    // The example of RFC 7636, appendix B.
    let bytes: [u8; 32] = [
        116, 24, 223, 180, 151, 153, 224, 37, 79, 250, 96, 125, 216, 173, 187, 186, 22, 212, 37, 77,
        105, 214, 191, 240, 91, 88, 5, 88, 83, 132, 141, 121,
    ];
    let pair = PkcePair::from_random(&bytes);
    assert_eq!(pair.verifier, "dBjftJeZ4CVP-mB92K27uhbUJU1p1r_wW1gFWFOEjXk");
    assert_eq!(pair.challenge, "E9Melhoa2OwvFrEMTJguCHaoeK1t8URWbuGJSstw-cM");
}

fn url_safe(s: &str) -> bool {
    s.bytes().all(|b| b.is_ascii_alphanumeric() || b == b'-' || b == b'_')
}

#[test]
fn pairs_and_states_are_new_each_time() {
    let (a, b) = (PkcePair::generate(), PkcePair::generate());
    assert_eq!(a.verifier.len(), 43);
    assert_eq!(a.challenge.len(), 43);
    assert!(url_safe(&a.verifier) && url_safe(&a.challenge));
    assert_ne!(a.verifier, b.verifier);
    assert_ne!(a.verifier, a.challenge);
    let (s, t) = (random_state(), random_state());
    assert_eq!(s.len(), 32);
    assert!(url_safe(&s));
    assert_ne!(s, t);
    assert_eq!(state_from_random(b"abc"), "YWJj");
    assert_eq!(state_from_random(&[0xfb, 0xff]), "-_8");
}

fn doc() -> DiscoveryDoc {
    DiscoveryDoc {
        issuer: "https://idp.example".to_owned(),
        authorization_endpoint: "https://idp.example/authorize?x=1".to_owned(),
        token_endpoint: "https://idp.example/token".to_owned(),
        jwks_uri: "https://idp.example/jwks".to_owned(),
        userinfo_endpoint: None,
    }
}

fn client(secret: Option<&str>) -> OidcClient {
    OidcClient::new(
        "https://idp.example/".to_owned(),
        "mcpg-cp".to_owned(),
        secret.map(str::to_owned),
        "http://127.0.0.1:7/callback".to_owned(),
    )
}

#[test]
fn discovery_is_fetched_once() {
    let mut c = client(None);
    match c.discovery() {
        DiscoveryStep::Fetch(url) => {
            assert_eq!(url, "https://idp.example/.well-known/openid-configuration")
        }
        DiscoveryStep::Cached(_) => panic!("nothing is known yet"),
    }
    c.store_discovery(doc());
    match c.discovery() {
        DiscoveryStep::Cached(d) => assert_eq!(d.jwks_uri, "https://idp.example/jwks"),
        DiscoveryStep::Fetch(_) => panic!("it is known"),
    }
    assert_eq!(
        well_known_url("https://idp.example//"),
        "https://idp.example/.well-known/openid-configuration"
    );
}

#[test]
fn the_browser_is_sent_with_the_request_in_the_query() {
    let pkce = PkcePair { verifier: "ver".to_owned(), challenge: "chal".to_owned() };
    let url = client(None)
        .try_authorize_url(&doc(), &pkce, "st&ate", &["openid", "email", "profile"])
        .unwrap()
        .unwrap();
    assert_eq!(
        client(None)
            .authorize_url(&doc(), &pkce, "st&ate", &["openid", "email", "profile"])
            .unwrap(),
        url
    );
    assert_eq!(
        url,
        "https://idp.example/authorize?x=1&response_type=code&client_id=mcpg-cp\
         &redirect_uri=http%3A%2F%2F127.0.0.1%3A7%2Fcallback&scope=openid+email+profile\
         &state=st%26ate&code_challenge=chal&code_challenge_method=S256"
    );
    let mut bad = doc();
    bad.authorization_endpoint = "not a url".to_owned();
    assert_eq!(
        client(None).try_authorize_url(&bad, &pkce, "s", &["openid"]),
        Some(Err("relative URL without a base".to_owned()))
    );
}

#[test]
fn a_url_has_as_many_places_as_32_bits_count() {
    let pair = |n: &str, v: &str| vec![(n.to_owned(), v.to_owned())];
    let last = u32::MAX as usize;
    assert!(request_fits(last - 1, &Vec::new()));
    assert!(!request_fits(last, &Vec::new()));
    assert!(request_fits(last - 1 - 4, &pair("a", "b")));
    assert!(!request_fits(last - 1 - 3, &pair("a", "b")));
    // A character that a form encodes takes three for each of its bytes; a space takes one.
    assert!(request_fits(last - 1 - 10, &pair("é", "* ")));
    assert!(!request_fits(last - 1 - 9, &pair("é", "* ")));
}

fn pairs(form: &[(String, String)]) -> Vec<(&str, &str)> {
    form.iter().map(|(n, v)| (n.as_str(), v.as_str())).collect()
}

#[test]
fn the_code_is_exchanged_with_the_verifier() {
    let expected = vec![
        ("grant_type", "authorization_code"),
        ("code", "c0de"),
        ("redirect_uri", "http://127.0.0.1:7/callback"),
        ("client_id", "mcpg-cp"),
        ("code_verifier", "ver"),
    ];
    assert_eq!(pairs(&client(None).exchange_code("c0de", "ver")), expected);
    let mut with_secret = expected;
    with_secret.push(("client_secret", "hush"));
    assert_eq!(pairs(&client(Some("hush")).exchange_code("c0de", "ver")), with_secret);
}

/// Keys for HMAC, each with the text of its name for a secret.
fn key_set(kids: &[&str]) -> Vec<u8> {
    let keys: Vec<String> = kids
        .iter()
        .map(|kid| {
            let secret = base64::Engine::encode(
                &base64::engine::general_purpose::URL_SAFE_NO_PAD,
                kid.as_bytes(),
            );
            format!("{{\"kty\":\"oct\",\"alg\":\"HS256\",\"kid\":\"{kid}\",\"k\":\"{secret}\"}}")
        })
        .collect();
    format!("{{\"keys\":[{}]}}", keys.join(",")).into_bytes()
}

fn signed(kid: Option<&str>, secret: &str, claims: &str) -> String {
    let mut header = jsonwebtoken::Header::new(jsonwebtoken::Algorithm::HS256);
    header.kid = kid.map(str::to_owned);
    let claims: serde_json::Value = serde_json::from_str(claims).unwrap();
    let key = jsonwebtoken::EncodingKey::from_secret(secret.as_bytes());
    jsonwebtoken::encode(&header, &claims, &key).unwrap()
}

const GOOD: &str = r#"{"aud":"mcpg-cp","exp":9999999999,"iss":"https://idp.example","sub":"u"}"#;

fn now_secs() -> i64 {
    std::time::SystemTime::now()
        .duration_since(std::time::UNIX_EPOCH)
        .unwrap()
        .as_secs() as i64
}

fn moment(ticks: u128) -> Moment {
    Moment { ticks, wall: Timestamp { secs: now_secs(), nanos: 0 } }
}

/// A client that knows its issuer and the given keys.
fn ready_with(served: Vec<u8>) -> OidcClient {
    let mut c = client(None);
    c.store_discovery(doc());
    let (stage, action) = c.jwk_for_kid("k1", KeyStage::Start, KeyEvent::Begin, 0);
    assert!(matches!(action, KeyAction::FetchJwks(_)));
    let (_, action) = c.jwk_for_kid("k1", stage, KeyEvent::Fetched(served), 0);
    assert!(matches!(action, KeyAction::Use(_)));
    c
}

fn ready(kids: &[&str]) -> OidcClient {
    ready_with(key_set(kids))
}

fn verify(c: &mut OidcClient, token: &str) -> Result<Vec<u8>, VerifyError> {
    match c.verify_id_token(token, KeyStage::Start, KeyEvent::Begin, moment(0)) {
        (KeyStage::Done, VerifyAction::Verified(payload)) => Ok(payload),
        (KeyStage::Done, VerifyAction::Fail(e)) => Err(e),
        _ => panic!("the keys are known"),
    }
}

#[test]
fn a_token_of_the_issuer_for_the_client_passes() {
    let token = signed(Some("k1"), "k1", GOOD);
    let payload = verify(&mut ready(&["k1"]), &token).unwrap();
    assert_eq!(payload, GOOD.as_bytes());
}

#[test]
fn a_token_is_held_to_its_signature_issuer_audience_and_end() {
    let refused = |secret: &str, claims: &str| {
        let token = signed(Some("k1"), secret, claims);
        verify(&mut ready(&["k1"]), &token).unwrap_err().id_token_message()
    };
    assert_eq!(
        refused("other", GOOD),
        "verify id_token: verify claims: InvalidSignature"
    );
    assert_eq!(
        refused("k1", r#"{"iss":"https://idp.example/","aud":"mcpg-cp","exp":9999999999}"#),
        "verify id_token: verify claims: InvalidIssuer"
    );
    assert_eq!(
        refused("k1", r#"{"iss":"https://idp.example","aud":"else","exp":9999999999}"#),
        "verify id_token: verify claims: InvalidAudience"
    );
    assert_eq!(
        refused("k1", r#"{"iss":"https://idp.example","aud":"mcpg-cp","exp":1}"#),
        "verify id_token: verify claims: ExpiredSignature"
    );
    assert_eq!(
        refused("k1", r#"{"iss":"https://idp.example","aud":"mcpg-cp"}"#),
        "verify id_token: verify claims: Missing required claim: exp"
    );
}

#[test]
fn a_token_must_name_its_issuer_and_its_audience() {
    let refused = |claims: &str| {
        verify(&mut ready(&["k1"]), &signed(Some("k1"), "k1", claims)).unwrap_err().message()
    };
    assert_eq!(
        refused(r#"{"aud":"mcpg-cp","exp":9999999999}"#),
        "verify claims: Missing required claim: iss"
    );
    assert_eq!(
        refused(r#"{"iss":7,"aud":"mcpg-cp","exp":9999999999}"#),
        "verify claims: Missing required claim: iss"
    );
    assert_eq!(
        refused(r#"{"iss":"https://idp.example","exp":9999999999}"#),
        "verify claims: Missing required claim: aud"
    );
    assert_eq!(
        refused(r#"{"iss":"https://idp.example","aud":["mcpg-cp",7],"exp":9999999999}"#),
        "verify claims: Missing required claim: aud"
    );
    // What is told of a token that lacks several claims is the same each time.
    for _ in 0..20 {
        assert_eq!(refused("{}"), "verify claims: Missing required claim: exp");
        assert_eq!(
            refused(r#"{"exp":9999999999}"#),
            "verify claims: Missing required claim: iss"
        );
    }
    // A payload that is no object names nobody.
    assert_eq!(
        refused(r#"[9999999999,null,"u","https://idp.example","mcpg-cp"]"#),
        "verify claims: Missing required claim: iss"
    );
}

#[test]
fn claims_are_handed_on_as_the_token_carries_them() {
    // A document with a name twice, which a reader of typed claims refuses.
    let twice = r#"{"iss":"https://idp.example","aud":"mcpg-cp","exp":9999999999,"email":"a","email":"b"}"#;
    let encode = |bytes: &[u8]| {
        base64::Engine::encode(&base64::engine::general_purpose::URL_SAFE_NO_PAD, bytes)
    };
    let message = format!(
        "{}.{}",
        encode(br#"{"alg":"HS256","kid":"k1"}"#),
        encode(twice.as_bytes())
    );
    let key = jsonwebtoken::EncodingKey::from_secret(b"k1");
    let signature =
        jsonwebtoken::crypto::sign(message.as_bytes(), &key, jsonwebtoken::Algorithm::HS256)
            .unwrap();
    let payload = verify(&mut ready(&["k1"]), &format!("{message}.{signature}")).unwrap();
    assert_eq!(payload, twice.as_bytes());
}

#[test]
fn clocks_may_differ_by_a_minute() {
    assert_eq!(LEEWAY, 60);
    let ends = |exp: i64| {
        let claims =
            format!("{{\"iss\":\"https://idp.example\",\"aud\":\"mcpg-cp\",\"exp\":{exp}}}");
        verify(&mut ready(&["k1"]), &signed(Some("k1"), "k1", &claims)).is_ok()
    };
    assert!(ends(now_secs() - 30));
    assert!(!ends(now_secs() - 90));
}

#[test]
fn claims_are_held_to_the_time_of_the_call() {
    let policy = |validate_nbf: bool| TokenPolicy {
        alg: jsonwebtoken::Algorithm::HS256,
        issuer: String::new(),
        audience: Vec::new(),
        leeway: 60,
        validate_nbf,
    };
    let refusal = |document: &str, validate_nbf: bool, now: i64| {
        let claims = parse_json(document.as_bytes()).unwrap();
        hold_to_time(&claims, &policy(validate_nbf), now)
    };
    assert_eq!(refusal("{\"exp\":1000}", true, 1060), None);
    assert_eq!(refusal("{\"exp\":1000}", true, 1061).as_deref(), Some("ExpiredSignature"));
    assert_eq!(refusal("{\"exp\":1000.5}", true, 1061), None);
    assert_eq!(refusal("{\"exp\":1000.5}", true, 1062).as_deref(), Some("ExpiredSignature"));
    assert_eq!(refusal("{\"exp\":1e300}", true, i64::MAX), None);
    assert_eq!(refusal("{\"nbf\":1000}", true, 940), None);
    assert_eq!(refusal("{\"nbf\":1000}", true, 939).as_deref(), Some("ImmatureSignature"));
    assert_eq!(refusal("{\"nbf\":1000.5}", true, 939).as_deref(), Some("ImmatureSignature"));
    assert_eq!(refusal("{\"nbf\":1000}", false, 0), None);
    assert_eq!(refusal("{}", true, 0), None);
    // Claims that name nobody are refused before that.
    let held = |document: &str| {
        hold_to_policy(&parse_json(document.as_bytes()).unwrap(), &policy(true), 0)
    };
    assert_eq!(held("{\"aud\":\"a\"}").as_deref(), Some("Missing required claim: iss"));
    assert_eq!(
        held("{\"iss\":[],\"aud\":null}").as_deref(),
        Some("Missing required claim: aud")
    );
    assert_eq!(held("{\"iss\":\"i\",\"aud\":[\"a\"]}"), None);
    assert_eq!(
        held("{\"iss\":\"i\",\"aud\":\"a\",\"nbf\":61}").as_deref(),
        Some("ImmatureSignature")
    );
    // A token that the check itself would take is refused where the call is made too late for it.
    let token = signed(Some("k1"), "k1", GOOD);
    let late = Moment { ticks: 0, wall: Timestamp { secs: 9_999_999_999 + 61, nanos: 0 } };
    let (_, action) =
        ready(&["k1"]).verify_id_token(&token, KeyStage::Start, KeyEvent::Begin, late);
    assert!(
        matches!(action, VerifyAction::Fail(VerifyError::Claims(e)) if e == "ExpiredSignature")
    );
}

#[test]
fn whether_a_token_is_early_is_looked_at_where_asked() {
    let claims = r#"{"iss":"https://idp.example","aud":["x","mcpg-cp"],"exp":9999999999,"nbf":9999999998}"#;
    let token = signed(Some("k1"), "k1", claims);
    assert!(verify(&mut ready(&["k1"]), &token).is_ok());
    let audience = vec!["mcpg-cp".to_owned()];
    let (_, action) = ready(&["k1"]).verify_signed_claims(
        &token,
        &audience,
        true,
        KeyStage::Start,
        KeyEvent::Begin,
        moment(0),
    );
    assert!(
        matches!(action, VerifyAction::Fail(VerifyError::Claims(e)) if e == "ImmatureSignature")
    );
}

#[test]
fn a_token_must_name_its_key() {
    let e = verify(&mut ready(&["k1"]), "not-a-jwt").unwrap_err();
    assert!(matches!(e, VerifyError::Header(_)));
    assert_eq!(e.message(), "decode jwt header: InvalidToken");
    let e = verify(&mut ready(&["k1"]), &signed(None, "k1", GOOD)).unwrap_err();
    assert_eq!(e.message(), "token missing kid header");
    // Within the cooldown an unknown key is refused at once.
    let mut c = ready(&["k1"]);
    assert!(c.begin_refetch(0));
    let e = verify(&mut c, &signed(Some("k2"), "k2", GOOD)).unwrap_err();
    assert_eq!(e.message(), "kid k2 not in the issuer's JWKS");
}

#[test]
fn a_key_that_cannot_be_used_is_an_error() {
    let set = br#"{"keys":[{"kty":"RSA","alg":"RS256","kid":"k1","n":"!","e":"AQAB"}]}"#;
    let mut c = ready_with(set.to_vec());
    let e = verify(&mut c, &signed(Some("k1"), "k1", GOOD)).unwrap_err();
    assert!(matches!(&e, VerifyError::Key(_)));
    assert!(e.message().starts_with("build decoding key: "));
}

#[test]
fn keys_that_cannot_be_read_end_the_search() {
    let mut c = ready(&["k1"]);
    let (stage, action) = c.jwk_for_kid("k2", KeyStage::Start, KeyEvent::Begin, 0);
    assert!(matches!(action, KeyAction::FetchJwks(_)));
    let (stage, action) = c.jwk_for_kid("k2", stage, KeyEvent::Fetched(b"<html>".to_vec()), 1);
    assert_eq!(stage, KeyStage::Done);
    assert!(matches!(action, KeyAction::Fail(VerifyError::Keys)));
    assert_eq!(VerifyError::Keys.message(), "error decoding response body");
    // The keys that were known are kept.
    assert!(verify(&mut c, &signed(Some("k1"), "k1", GOOD)).is_ok());
}

#[test]
fn a_client_that_knows_nothing_fetches_first() {
    let token = signed(Some("k1"), "k1", GOOD);
    let mut c = client(None);
    assert_eq!(c.issuer(), "https://idp.example/");
    assert_eq!(c.client_id(), "mcpg-cp");
    let (stage, action) = c.verify_id_token(&token, KeyStage::Start, KeyEvent::Begin, moment(5));
    assert_eq!(stage, KeyStage::Loading);
    assert!(matches!(action, VerifyAction::FetchDiscovery(url)
        if url == "https://idp.example/.well-known/openid-configuration"));
    let (stage, action) = c.verify_id_token(&token, stage, KeyEvent::Discovered(doc()), moment(6));
    assert_eq!(stage, KeyStage::Loading);
    assert!(matches!(action, VerifyAction::FetchJwks(url) if url == "https://idp.example/jwks"));
    let served = KeyEvent::Fetched(key_set(&["k0", "k1"]));
    let (stage, action) = c.verify_id_token(&token, stage, served, moment(7));
    assert_eq!(stage, KeyStage::Done);
    assert!(matches!(action, VerifyAction::Verified(_)));
    // What was learned is kept, and the load counts as no fetch for an unknown key.
    assert!(verify(&mut c, &token).is_ok());
    assert!(c.begin_refetch(0));
    assert!(!c.begin_refetch(JWKS_REFETCH_COOLDOWN - 1));
    assert!(c.begin_refetch(JWKS_REFETCH_COOLDOWN));
}

#[test]
fn a_rotated_key_is_found_after_one_fetch() {
    let mut c = ready(&["k1"]);
    let (stage, action) = c.jwk_for_kid("k2", KeyStage::Start, KeyEvent::Begin, 1_000);
    assert_eq!(stage, KeyStage::Reloading);
    assert!(matches!(action, KeyAction::FetchJwks(url) if url == "https://idp.example/jwks"));
    let (stage, action) =
        c.jwk_for_kid("k2", stage, KeyEvent::Fetched(key_set(&["k1", "k2"])), 2_000);
    assert_eq!(stage, KeyStage::Done);
    assert!(matches!(action, KeyAction::Use(jwk) if jwk.common.key_id.as_deref() == Some("k2")));
}

#[test]
fn a_key_that_no_fetch_brings_ends_the_search() {
    let mut c = ready(&["k1"]);
    let (stage, _) = c.jwk_for_kid("k2", KeyStage::Start, KeyEvent::Begin, 0);
    let (stage, action) = c.jwk_for_kid("k2", stage, KeyEvent::Fetched(key_set(&["k1"])), u128::MAX);
    assert_eq!(stage, KeyStage::Done);
    assert!(matches!(action, KeyAction::Fail(VerifyError::UnknownKid(kid)) if kid == "k2"));
}

#[test]
fn unknown_keys_cause_one_fetch_in_each_cooldown() {
    assert_eq!(JWKS_REFETCH_COOLDOWN, 30_000_000_000);
    let mut c = ready(&["k1"]);
    let mut fetches = Vec::new();
    for i in 0..1_000u128 {
        let now = i * 100_000_000;
        let (_, action) = c.jwk_for_kid("forged", KeyStage::Start, KeyEvent::Begin, now);
        match action {
            KeyAction::FetchJwks(_) => fetches.push(now),
            KeyAction::Fail(VerifyError::UnknownKid(_)) => {}
            _ => panic!("the key does not exist"),
        }
    }
    assert_eq!(fetches, [0, 30_000_000_000, 60_000_000_000, 90_000_000_000]);
    // A key that is known is used all the while.
    let (_, action) = c.jwk_for_kid("k1", KeyStage::Start, KeyEvent::Begin, 0);
    assert!(matches!(action, KeyAction::Use(_)));
}
