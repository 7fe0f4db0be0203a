use mcpg_cli_core::client::{
    auth_headers, bearer_token, cp_error, cred_field, doc_headers, env_token, invocation_of,
    program_invocation, wants_refresh, HeaderError, AUTHORIZATION, LICENSE_HEADER, TOKEN_ENV,
};
use mcpg_cli_core::json::Json;
use mcpg_cli_core::paths::PathStyle;

fn login_file(id_token: &str) -> Vec<u8> {
    format!("{{\"id_token\":\"{id_token}\",\"license_jwt\":\"lic\"}}").into_bytes()
}

#[test]
fn the_environment_token_wins_over_the_stored_login() {
    let file = login_file("stored");
    assert_eq!(bearer_token(Some("svc-token"), Some(&file)).as_deref(), Some("svc-token"));
    assert_eq!(bearer_token(None, Some(&file)).as_deref(), Some("stored"));
}

#[test]
fn a_blank_environment_token_is_absent() {
    let file = login_file("stored");
    assert_eq!(env_token(Some("   ")), None);
    assert_eq!(bearer_token(Some("   "), Some(&file)).as_deref(), Some("stored"));
}

#[test]
fn the_license_header_rides_only_with_a_stored_login() {
    let file = login_file("stored");
    let headers = auth_headers(Some("svc-token"), Some(&file)).unwrap().expect("a bearer");
    assert_eq!(headers.len(), 1);
    assert_eq!(headers[0].name, AUTHORIZATION);
    assert_eq!(headers[0].value, "Bearer svc-token");
    assert!(headers[0].sensitive);
    assert!(headers.iter().all(|h| h.name != LICENSE_HEADER));

    let headers = auth_headers(None, Some(&file)).unwrap().expect("a bearer");
    assert_eq!(headers.len(), 2);
    assert_eq!(headers[0].name, AUTHORIZATION);
    assert_eq!(headers[0].value, "Bearer stored");
    assert_eq!(headers[1].name, LICENSE_HEADER);
    assert_eq!(headers[1].value, "lic");
    assert!(headers[1].sensitive);

    assert!(auth_headers(None, None).unwrap().is_none(), "no login, no header");
}

#[test]
fn names_are_fixed() {
    assert_eq!(LICENSE_HEADER, "x-mcpg-license");
    assert_eq!(TOKEN_ENV, "MCPG_CLOUD_TOKEN");
    assert_eq!(AUTHORIZATION, reqwest::header::AUTHORIZATION.as_str());
}

#[test]
fn environment_tokens_lose_the_white_space_around_them() {
    assert_eq!(env_token(None), None);
    assert_eq!(env_token(Some("")), None);
    assert_eq!(env_token(Some("\u{a0}\t tok en \u{3000}\n")).as_deref(), Some("tok en"));
}

#[test]
fn fields_come_from_a_readable_file_only() {
    let file = br#"{"id_token":"t","empty":"","n":1}"#;
    assert_eq!(cred_field(Some(file), "id_token").as_deref(), Some("t"));
    assert_eq!(cred_field(Some(file), "empty"), None);
    assert_eq!(cred_field(Some(file), "n"), None);
    assert_eq!(cred_field(Some(file), "absent"), None);
    assert_eq!(cred_field(Some(b"{not json"), "id_token"), None);
    assert_eq!(cred_field(Some(b"[1]"), "id_token"), None);
    assert_eq!(cred_field(None, "id_token"), None);
}

#[test]
fn a_token_that_no_header_can_carry_is_an_error() {
    assert_eq!(auth_headers(Some("a\nb"), None).unwrap_err(), HeaderError::Bearer);
    assert_eq!(auth_headers(Some("a\u{7f}b"), None).unwrap_err(), HeaderError::Bearer);
    assert_eq!(
        HeaderError::Bearer.message(),
        "bearer token has invalid header chars"
    );
    let doc = Json::Object(vec![
        ("id_token".to_owned(), Json::Str("ok".to_owned())),
        ("license_jwt".to_owned(), Json::Str("l\u{0}c".to_owned())),
    ]);
    assert_eq!(doc_headers(None, Some(&doc)).unwrap_err(), HeaderError::License);
    assert_eq!(
        HeaderError::License.message(),
        "license jwt has invalid header chars"
    );
    // The environment token leaves the license, and so its fault, behind.
    assert_eq!(doc_headers(Some("svc"), Some(&doc)).unwrap().unwrap().len(), 1);
    // A tab and characters beyond ASCII pass.
    let headers = auth_headers(Some("a\té"), None).unwrap().unwrap();
    assert_eq!(headers[0].value, "Bearer a\té");
}

#[test]
fn only_a_stored_login_is_renewed() {
    assert!(wants_refresh(None));
    assert!(wants_refresh(Some(" \t")));
    assert!(!wants_refresh(Some("svc-token")));
}

#[test]
fn programs_are_spelled_as_the_documentation_does() {
    let unix = |arg: &str| program_invocation(arg, PathStyle::Unix);
    assert_eq!(unix("mcpg-cloud"), "mcpg cloud");
    assert_eq!(unix("/usr/bin/mcpg-admin"), "mcpg admin");
    assert_eq!(unix("/usr/bin/mcpg-gateway"), "mcpg-gateway");
    assert_eq!(unix("./mcpg-"), "mcpg-");
    assert_eq!(unix("mcpg"), "mcpg");
    assert_eq!(unix("bin/other/"), "other");
    assert_eq!(unix(""), "mcpg");
    assert_eq!(unix("/"), "mcpg");
    assert_eq!(unix("bin/.."), "mcpg");
    assert_eq!(
        program_invocation("C:\\bin\\mcpg-cloud", PathStyle::Windows),
        "mcpg cloud"
    );
    assert_eq!(invocation_of("mcpg-cloud"), "mcpg cloud");
    assert_eq!(invocation_of("mcpg-cloud.exe"), "mcpg-cloud.exe");
}

#[test]
fn a_refusal_to_authenticate_brings_a_hint() {
    assert_eq!(
        cp_error("publish", 500, "500 Internal Server Error", "boom", None, "mcpg cloud"),
        "publish \u{2192} 500 Internal Server Error: boom"
    );
    assert_eq!(
        cp_error("whoami", 401, "401 Unauthorized", "no", None, "mcpg cloud"),
        "whoami \u{2192} 401 Unauthorized: no\n  hint: your session may have expired — re-run \
         `mcpg cloud login --issuer <url>`"
    );
    assert_eq!(
        cp_error("whoami", 401, "401 Unauthorized", "no", Some("svc"), "mcpg cloud"),
        "whoami \u{2192} 401 Unauthorized: no\n  hint: the MCPG_CLOUD_TOKEN token was refused — it \
         may be expired or revoked (an org owner lists them with `mcpg cloud service-token list`)"
    );
    assert_eq!(
        cp_error("whoami", 401, "401 Unauthorized", "no", Some("  "), "mcpg cloud"),
        cp_error("whoami", 401, "401 Unauthorized", "no", None, "mcpg cloud")
    );
}
