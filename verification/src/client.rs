//! The credentials that calls to the control plane carry, and how a failed call is reported.
//!
//! A caller without a terminal names a service token in the environment. It goes before the stored
//! login. Without either, calls carry no credential.

use vstd::prelude::*;
use vstd::utf8::{encode_utf8, is_ascii_chars, is_ascii_chars_encode_utf8};

use crate::json::{json_parse, parse_json, tree_get, tree_get_str, Json, JsonTree};
use crate::paths::{file_name, file_name_of, PathStyle};
use crate::text::{is_white_space, law_blank_texts_trim_to_nothing, same, trim, trimmed};

verus! {

/// The header that carries the license token of a stored login.
pub const LICENSE_HEADER: &'static str = "x-mcpg-license";

/// The header that carries the bearer token.
pub const AUTHORIZATION: &'static str = "authorization";

/// The environment variable that holds a bearer token.
pub const TOKEN_ENV: &'static str = "MCPG_CLOUD_TOKEN";

/// The seconds after which a call is given up. Provisioning can take minutes.
pub const CALL_TIMEOUT_SECS: u64 = 600;

/// A header of a call.
#[derive(Debug)]
pub struct Header {
    pub name: String,
    pub value: String,
    /// Whether the value stays out of logs.
    pub sensitive: bool,
}

/// A `Header`, with text as character sequences.
pub struct HeaderView {
    pub name: Seq<char>,
    pub value: Seq<char>,
    pub sensitive: bool,
}

impl View for Header {
    type V = HeaderView;

    open spec fn view(&self) -> HeaderView {
        HeaderView { name: self.name@, value: self.value@, sensitive: self.sensitive }
    }
}

/// Headers, with text as character sequences.
pub open spec fn headers_view(headers: Seq<Header>) -> Seq<HeaderView> {
    headers.map_values(|h: Header| h@)
}

/// Why a credential cannot be sent.
#[derive(Clone, Copy, Debug, PartialEq, Eq, Structural)]
pub enum HeaderError {
    Bearer,
    License,
}

impl HeaderError {
    /// The text of the error.
    pub fn message(&self) -> (r: String)
        ensures
            r@ == match *self {
                HeaderError::Bearer => "bearer token has invalid header chars"@,
                HeaderError::License => "license jwt has invalid header chars"@,
            },
            r@ == header_message(*self),
    {
        match self {
            HeaderError::Bearer => "bearer token has invalid header chars".to_owned(),
            HeaderError::License => "license jwt has invalid header chars".to_owned(),
        }
    }
}

/// Whether a byte may stand in the value of a header.
pub open spec fn is_header_byte(b: u8) -> bool {
    b >= 32 && b != 127 || b == 9
}

/// Whether a text may be the value of a header.
pub open spec fn is_header_value(text: Seq<char>) -> bool {
    forall|i: int|
        0 <= i < encode_utf8(text).len() ==> is_header_byte(#[trigger] encode_utf8(text)[i])
}

/// Whether `HeaderValue::from_str` of `reqwest` takes a text for the value of a header: each of its
/// bytes is a tab, or is 32 or more and not 127.
#[verifier::external_body]
fn header_value_ok(text: &str) -> (r: bool)
    ensures
        r == is_header_value(text@),
{
    reqwest::header::HeaderValue::from_str(text).is_ok()
}

/// The bearer token that the environment names, given the value of its variable.
pub open spec fn env_bearer(var: Option<Seq<char>>) -> Option<Seq<char>> {
    match var {
        Some(t) => if trimmed(t).len() > 0 {
            Some(trimmed(t))
        } else {
            None
        },
        None => None,
    }
}

/// What is read of the file of credentials, given its bytes.
pub open spec fn stored_doc(file: Option<&[u8]>) -> Option<JsonTree> {
    match file {
        Some(bytes) => json_parse(bytes@),
        None => None,
    }
}

/// The text of a field of the credentials, where there is one that is not empty.
pub open spec fn stored_field(doc: Option<JsonTree>, field: Seq<char>) -> Option<Seq<char>> {
    match doc {
        Some(v) => match tree_get_str(v, field) {
            Some(t) => if t.len() > 0 {
                Some(t)
            } else {
                None
            },
            None => None,
        },
        None => None,
    }
}

/// The bearer token: the one that the environment names, or else the stored identity token.
pub open spec fn bearer(var: Option<Seq<char>>, doc: Option<JsonTree>) -> Option<Seq<char>> {
    match env_bearer(var) {
        Some(t) => Some(t),
        None => stored_field(doc, "id_token"@),
    }
}

/// The license token, which goes with a stored login only.
pub open spec fn license(var: Option<Seq<char>>, doc: Option<JsonTree>) -> Option<Seq<char>> {
    match env_bearer(var) {
        Some(_) => None,
        None => stored_field(doc, "license_jwt"@),
    }
}

/// The header for the bearer token.
pub open spec fn bearer_header(token: Seq<char>) -> HeaderView {
    HeaderView { name: AUTHORIZATION@, value: "Bearer "@ + token, sensitive: true }
}

/// The header for the license token.
pub open spec fn license_header(license: Seq<char>) -> HeaderView {
    HeaderView { name: LICENSE_HEADER@, value: license, sensitive: true }
}

/// The headers that a call carries: none without a bearer token.
pub open spec fn call_headers(var: Option<Seq<char>>, doc: Option<JsonTree>) -> Result<
    Option<Seq<HeaderView>>,
    HeaderError,
> {
    match bearer(var, doc) {
        None => Ok(None),
        Some(token) => if !is_header_value("Bearer "@ + token) {
            Err(HeaderError::Bearer)
        } else {
            match license(var, doc) {
                None => Ok(Some(seq![bearer_header(token)])),
                Some(license) => if !is_header_value(license) {
                    Err(HeaderError::License)
                } else {
                    Ok(Some(seq![bearer_header(token), license_header(license)]))
                },
            }
        },
    }
}

/// The bearer token that the environment names, given the value of its variable.
pub fn env_token(var: Option<&str>) -> (r: Option<String>)
    ensures
        r.deep_view() == env_bearer(var.deep_view()),
{
    match var {
        Some(t) => {
            let t = trim(t);
            if t.as_str().is_empty() {
                None
            } else {
                Some(t)
            }
        },
        None => None,
    }
}

/// The text of a field of the credentials, given the bytes of the file that holds them.
pub fn cred_field(file: Option<&[u8]>, field: &str) -> (r: Option<String>)
    ensures
        r.deep_view() == stored_field(stored_doc(file), field@),
{
    let doc = match file {
        Some(bytes) => parse_json(bytes),
        None => None,
    };
    doc_field(doc.as_ref(), field)
}

/// The text of a field of the credentials, given what the file that holds them says.
pub fn doc_field(doc: Option<&Json>, field: &str) -> (r: Option<String>)
    ensures
        r.deep_view() == stored_field(doc_view(doc), field@),
{
    match doc {
        Some(v) => match v.get_str(field) {
            Some(t) => {
                if t.is_empty() {
                    None
                } else {
                    Some(t.to_owned())
                }
            },
            None => None,
        },
        None => None,
    }
}

/// What a document that may be missing is.
pub open spec fn doc_view(doc: Option<&Json>) -> Option<JsonTree> {
    match doc {
        Some(v) => Some(v@),
        None => None,
    }
}

/// The bearer token, given the environment variable and the bytes of the file of credentials.
pub fn bearer_token(var: Option<&str>, file: Option<&[u8]>) -> (r: Option<String>)
    ensures
        r.deep_view() == bearer(var.deep_view(), stored_doc(file)),
{
    match env_token(var) {
        Some(t) => Some(t),
        None => cred_field(file, "id_token"),
    }
}

/// Whether the stored login is renewed before a call: not where the environment names a token.
pub fn wants_refresh(var: Option<&str>) -> (r: bool)
    ensures
        r == (env_bearer(var.deep_view()) is None),
        r == uses_login(var.deep_view()),
{
    env_token(var).is_none()
}

/// The headers that a call carries, given the environment variable and the bytes of the file of
/// credentials.
pub fn auth_headers(var: Option<&str>, file: Option<&[u8]>) -> (r: Result<
    Option<Vec<Header>>,
    HeaderError,
>)
    ensures
        match r {
            Ok(Some(headers)) => call_headers(var.deep_view(), stored_doc(file)) == Ok::<
                Option<Seq<HeaderView>>,
                HeaderError,
            >(Some(headers_view(headers@))),
            Ok(None) => call_headers(var.deep_view(), stored_doc(file)) == Ok::<
                Option<Seq<HeaderView>>,
                HeaderError,
            >(None),
            Err(e) => call_headers(var.deep_view(), stored_doc(file)) == Err::<
                Option<Seq<HeaderView>>,
                HeaderError,
            >(e),
        },
{
    let doc = match file {
        Some(bytes) => parse_json(bytes),
        None => None,
    };
    doc_headers(var, doc.as_ref())
}

/// The headers that a call carries, given the environment variable and what the file of credentials
/// says.
pub fn doc_headers(var: Option<&str>, doc: Option<&Json>) -> (r: Result<
    Option<Vec<Header>>,
    HeaderError,
>)
    ensures
        match r {
            Ok(Some(headers)) => call_headers(var.deep_view(), doc_view(doc)) == Ok::<
                Option<Seq<HeaderView>>,
                HeaderError,
            >(Some(headers_view(headers@))),
            Ok(None) => call_headers(var.deep_view(), doc_view(doc)) == Ok::<
                Option<Seq<HeaderView>>,
                HeaderError,
            >(None),
            Err(e) => call_headers(var.deep_view(), doc_view(doc)) == Err::<
                Option<Seq<HeaderView>>,
                HeaderError,
            >(e),
        },
{
    let env = env_token(var);
    let from_env = env.is_some();
    let token = match env {
        Some(t) => t,
        None => match doc_field(doc, "id_token") {
            Some(t) => t,
            None => {
                return Ok(None);
            },
        },
    };
    let value = "Bearer ".to_owned().concat(token.as_str());
    if !header_value_ok(value.as_str()) {
        return Err(HeaderError::Bearer);
    }
    let mut headers: Vec<Header> = Vec::new();
    headers.push(Header { name: AUTHORIZATION.to_owned(), value, sensitive: true });
    assert(headers_view(headers@) =~= seq![bearer_header(token@)]);
    if !from_env {
        if let Some(license) = doc_field(doc, "license_jwt") {
            if !header_value_ok(license.as_str()) {
                return Err(HeaderError::License);
            }
            let ghost text = license@;
            headers.push(Header { name: LICENSE_HEADER.to_owned(), value: license, sensitive: true });
            assert(headers_view(headers@) =~= seq![bearer_header(token@), license_header(text)]);
        }
    }
    Ok(Some(headers))
}

/// How the documentation spells the program of the given file name: the two that go by a program and
/// its subcommand so, any other by its file name.
pub open spec fn invocation(base: Seq<char>) -> Seq<char> {
    if base == "mcpg-cloud"@ {
        "mcpg cloud"@
    } else if base == "mcpg-admin"@ {
        "mcpg admin"@
    } else {
        base
    }
}

/// How the documentation spells the program of the given file name.
pub fn invocation_of(base: &str) -> (r: String)
    ensures
        r@ == invocation(base@),
{
    if same(base, "mcpg-cloud") {
        "mcpg cloud".to_owned()
    } else if same(base, "mcpg-admin") {
        "mcpg admin".to_owned()
    } else {
        base.to_owned()
    }
}

/// How the documentation spells the running program, given the path that it was started by.
pub fn program_invocation(arg: &str, style: PathStyle) -> (r: String)
    ensures
        r@ == invocation(
            match file_name_of(arg@, style) {
                Some(base) => base,
                None => "mcpg"@,
            },
        ),
        r@ == program_name(arg@, style),
{
    match file_name(arg, style) {
        Some(base) => invocation_of(base.as_str()),
        None => invocation_of("mcpg"),
    }
}

/// What to do about a call that failed: on a refusal to authenticate, what to look at.
pub open spec fn hint(status: u16, from_env: bool, program: Seq<char>) -> Seq<char> {
    if status != 401 {
        Seq::empty()
    } else if from_env {
        "\n  hint: the "@ + TOKEN_ENV@
            + " token was refused — it may be expired or revoked (an org owner lists them with `"@
            + program + " service-token list`)"@
    } else {
        "\n  hint: your session may have expired — re-run `"@ + program
            + " login --issuer <url>`"@
    }
}

/// The report of a call that failed: what was tried, the status and its text, the body of the answer,
/// and a hint.
pub fn cp_error(
    action: &str,
    status: u16,
    status_text: &str,
    body: &str,
    var: Option<&str>,
    program: &str,
) -> (r: String)
    ensures
        r@ == action@ + " \u{2192} "@ + status_text@ + ": "@ + body@ + hint(
            status,
            env_bearer(var.deep_view()) is Some,
            program@,
        ),
        r@ == report(action@, status, status_text@, body@, var.deep_view(), program@),
{
    let hint = if status != 401 {
        String::new()
    } else if env_token(var).is_some() {
        "\n  hint: the ".to_owned().concat(TOKEN_ENV).concat(
            " token was refused — it may be expired or revoked (an org owner lists them with `",
        ).concat(program).concat(" service-token list`)")
    } else {
        "\n  hint: your session may have expired — re-run `".to_owned().concat(program).concat(
            " login --issuer <url>`",
        )
    };
    action.to_owned().concat(" \u{2192} ").concat(status_text).concat(": ").concat(body).concat(
        hint.as_str(),
    )
}

/// A token that the environment names is the bearer, whatever is stored.
pub proof fn law_environment_wins(var: Option<Seq<char>>, doc: Option<JsonTree>)
    requires
        env_bearer(var) is Some,
    ensures
        bearer(var, doc) == env_bearer(var),
        call_headers(var, doc) == call_headers(var, None),
{
}

/// A blank variable is no variable.
pub proof fn law_blank_is_absent(var: Seq<char>, doc: Option<JsonTree>)
    requires
        trimmed(var).len() == 0,
    ensures
        bearer(Some(var), doc) == bearer(None, doc),
        call_headers(Some(var), doc) == call_headers(None, doc),
{
}

/// The license goes with a stored login only, every header stays out of logs, and without a login
/// and a variable there is none.
pub proof fn law_headers(var: Option<Seq<char>>, doc: Option<JsonTree>)
    ensures
        call_headers(var, doc) matches Ok(Some(headers)) ==> {
            &&& headers[0] == bearer_header(bearer(var, doc)->0)
            &&& forall|i: int| 0 <= i < headers.len() ==> (#[trigger] headers[i]).sensitive
            &&& (exists|i: int|
                0 <= i < headers.len() && (#[trigger] headers[i]).name == LICENSE_HEADER@) <==> (
            env_bearer(var) is None && stored_field(doc, "license_jwt"@) is Some)
        },
        bearer(var, doc) is None <==> call_headers(var, doc) == Ok::<
            Option<Seq<HeaderView>>,
            HeaderError,
        >(None),
{
    reveal_strlit("x-mcpg-license");
    reveal_strlit("authorization");
    assert(LICENSE_HEADER@.len() == 14);
    assert(AUTHORIZATION@.len() == 13);
    if let Ok(Some(headers)) = call_headers(var, doc) {
        if license(var, doc) is Some {
            assert(headers[1].name == LICENSE_HEADER@);
        }
    }
}

/// A service token is what the environment names between white space, where that is anything.
pub proof fn law_service_tokens(text: Seq<char>, token: Seq<char>)
    ensures
        env_bearer(None) is None,
        env_bearer(Some(text)) == Some(token) <==> token == trimmed(text) && token.len() > 0,
        env_bearer(Some(text)) is None <==> forall|k: int|
            0 <= k < text.len() ==> is_white_space(#[trigger] text[k]),
{
    law_blank_texts_trim_to_nothing(text);
}

/// A field of a stored login is the member of its name, where that is a string with anything in it.
pub proof fn law_stored_fields(doc: JsonTree, field: Seq<char>, text: Seq<char>)
    ensures
        stored_field(None, field) is None,
        stored_field(Some(doc), field) == Some(text) <==> tree_get(doc, field) == Some(
            JsonTree::Str(text),
        ) && text.len() > 0,
        stored_field(Some(doc), field) is None ==> !(tree_get(doc, field) matches Some(
            JsonTree::Str(t),
        ) && t.len() > 0),
{
}

/// A stored login is the JSON of its file; without a file, or with another text in it, there is
/// none.
pub proof fn law_stored_logins(bytes: &[u8])
    ensures
        stored_doc(None) is None,
        stored_doc(Some(bytes)) == json_parse(bytes@),
{
}

/// A call carries the service token where there is one, and else the stored ID token.
pub proof fn law_bearers(var: Option<Seq<char>>, doc: Option<JsonTree>, token: Seq<char>)
    ensures
        bearer(var, doc) == Some(token) <==> env_bearer(var) == Some(token) || env_bearer(var) is None
            && stored_field(doc, "id_token"@) == Some(token),
        bearer(var, doc) is None <==> env_bearer(var) is None && stored_field(doc, "id_token"@) is None,
{
}

/// Headers are refused only for characters that no header can carry: those of the bearer, or those
/// of a stored license that goes along with a stored login.
pub proof fn law_refused_headers(var: Option<Seq<char>>, doc: Option<JsonTree>)
    ensures
        call_headers(var, doc) == Err::<Option<Seq<HeaderView>>, HeaderError>(HeaderError::Bearer)
            <==> {
            ||| env_bearer(var) matches Some(t) && !is_header_value("Bearer "@ + t)
            ||| env_bearer(var) is None && (stored_field(doc, "id_token"@) matches Some(t)
                && !is_header_value("Bearer "@ + t))
        },
        call_headers(var, doc) == Err::<Option<Seq<HeaderView>>, HeaderError>(HeaderError::License)
            <==> {
            &&& env_bearer(var) is None
            &&& stored_field(doc, "id_token"@) matches Some(t) && is_header_value("Bearer "@ + t)
            &&& stored_field(doc, "license_jwt"@) matches Some(l) && !is_header_value(l)
        },
{
}

/// With a bearer that a header can carry and no license that goes along, the headers are the
/// bearer's alone.
pub proof fn law_bearers_alone(var: Option<Seq<char>>, doc: Option<JsonTree>, token: Seq<char>)
    requires
        env_bearer(var) == Some(token) || env_bearer(var) is None && stored_field(doc, "id_token"@)
            == Some(token) && stored_field(doc, "license_jwt"@) is None,
        is_header_value("Bearer "@ + token),
    ensures
        call_headers(var, doc) matches Ok(Some(headers)) && headers.len() == 1 && headers[0].name
            == "authorization"@ && headers[0].value == "Bearer "@ + token && headers[0].sensitive,
{
}

/// A stored license that a header can carry goes along with a stored login, in a header of its own
/// after the bearer's.
pub proof fn law_licenses_go_along(
    var: Option<Seq<char>>,
    doc: Option<JsonTree>,
    token: Seq<char>,
    license: Seq<char>,
)
    requires
        env_bearer(var) is None,
        stored_field(doc, "id_token"@) == Some(token),
        is_header_value("Bearer "@ + token),
        stored_field(doc, "license_jwt"@) == Some(license),
        is_header_value(license),
    ensures
        call_headers(var, doc) matches Ok(Some(headers)) && headers.len() == 2 && headers[0].name
            == "authorization"@ && headers[0].value == "Bearer "@ + token && headers[0].sensitive
            && headers[1].name == "x-mcpg-license"@ && headers[1].value == license
            && headers[1].sensitive,
{
}

/// A call goes without a credential if and only if there is neither a service token nor a stored ID
/// token. A license alone is not sent.
pub proof fn law_calls_without_credentials(var: Option<Seq<char>>, doc: Option<JsonTree>)
    ensures
        call_headers(var, doc) == Ok::<Option<Seq<HeaderView>>, HeaderError>(None) <==> env_bearer(
            var,
        ) is None && stored_field(doc, "id_token"@) is None,
{
}

/// A header carries every text of printable ASCII, and none with a line break in it.
pub proof fn law_header_texts(text: Seq<char>)
    ensures
        (forall|i: int| 0 <= i < text.len() ==> ' ' <= #[trigger] text[i] <= '~')
            ==> is_header_value(text),
        (exists|i: int|
            0 <= i < encode_utf8(text).len() && (#[trigger] encode_utf8(text)[i] == 10 || encode_utf8(
                text,
            )[i] == 13 || encode_utf8(text)[i] == 0)) ==> !is_header_value(text),
{
    if forall|i: int| 0 <= i < text.len() ==> ' ' <= #[trigger] text[i] <= '~' {
        assert(is_ascii_chars(text));
        is_ascii_chars_encode_utf8(text);
    }
}

/// What a failed call is reported as.
pub open spec fn report(
    action: Seq<char>,
    status: u16,
    status_text: Seq<char>,
    body: Seq<char>,
    var: Option<Seq<char>>,
    program: Seq<char>,
) -> Seq<char> {
    action + " \u{2192} "@ + status_text + ": "@ + body + hint(
        status,
        env_bearer(var) is Some,
        program,
    )
}

/// A failed call is reported with its action, its status and the whole of its body. Only a call that
/// was not authorized gets a hint, which says what to do with the credential that the call carried.
pub proof fn law_reports(
    action: Seq<char>,
    status: u16,
    status_text: Seq<char>,
    body: Seq<char>,
    var: Option<Seq<char>>,
    program: Seq<char>,
)
    ensures
        ({
            let said = action + " \u{2192} "@ + status_text + ": "@ + body;
            let told = report(action, status, status_text, body, var, program);
            &&& status != 401 ==> told == said
            &&& status == 401 && env_bearer(var) is Some ==> told == said + (
            "\n  hint: the "@ + "MCPG_CLOUD_TOKEN"@
                + " token was refused — it may be expired or revoked (an org owner lists them with `"@
                + program + " service-token list`)"@)
            &&& status == 401 && env_bearer(var) is None ==> told == said + (
            "\n  hint: your session may have expired — re-run `"@ + program
                + " login --issuer <url>`"@)
        }),
{
}

/// A program is invoked by its own name, but for the two that are commands of another.
pub proof fn law_invocations(base: Seq<char>)
    ensures
        invocation("mcpg-cloud"@) == "mcpg cloud"@,
        invocation("mcpg-admin"@) == "mcpg admin"@,
        base != "mcpg-cloud"@ && base != "mcpg-admin"@ ==> invocation(base) == base,
{
    reveal_strlit("mcpg-cloud");
    reveal_strlit("mcpg-admin");
    assert("mcpg-cloud"@[5] != "mcpg-admin"@[5]);
}

/// A header is seen as what it holds.
pub proof fn law_headers_are_seen_whole(header: Header)
    ensures
        header@.name == header.name@,
        header@.value == header.value@,
        header@.sensitive == header.sensitive,
{
}

/// How the program is invoked, given the path that it was started with.
pub open spec fn program_name(arg: Seq<char>, style: PathStyle) -> Seq<char> {
    invocation(
        match file_name_of(arg, style) {
            Some(base) => base,
            None => "mcpg"@,
        },
    )
}

/// A program is known by the file that it was started from, wherever that lies; one that was started
/// from no file by the name of the tool.
pub proof fn law_program_names(arg: Seq<char>, other: Seq<char>, style: PathStyle)
    ensures
        file_name_of(arg, style) matches Some(base) ==> program_name(arg, style) == invocation(base),
        file_name_of(arg, style) is None ==> program_name(arg, style) == "mcpg"@,
        file_name_of(arg, style) == file_name_of(other, style) ==> program_name(arg, style)
            == program_name(other, style),
{
    reveal_strlit("mcpg");
    reveal_strlit("mcpg-cloud");
    reveal_strlit("mcpg-admin");
    assert("mcpg"@.len() != "mcpg-cloud"@.len() && "mcpg"@.len() != "mcpg-admin"@.len());
}

/// Whether a call goes by the stored login.
pub open spec fn uses_login(var: Option<Seq<char>>) -> bool {
    env_bearer(var) is None
}

/// A call goes by the stored login where the environment names no service token, and only then does it
/// carry anything of the login.
pub proof fn law_logins_are_used(var: Option<Seq<char>>, doc: Option<JsonTree>)
    ensures
        uses_login(var) <==> (var matches Some(text) ==> trimmed(text).len() == 0),
        uses_login(var) ==> bearer(var, doc) == stored_field(doc, "id_token"@) && license(var, doc)
            == stored_field(doc, "license_jwt"@),
        !uses_login(var) ==> bearer(var, doc) == bearer(var, None) && license(var, doc) is None,
{
}

/// The text of an error.
pub open spec fn header_message(e: HeaderError) -> Seq<char> {
    match e {
        HeaderError::Bearer => "bearer token has invalid header chars"@,
        HeaderError::License => "license jwt has invalid header chars"@,
    }
}

/// The messages tell which of the two could not be carried, and for the same reason.
pub proof fn law_header_messages(e: HeaderError)
    ensures
        e == HeaderError::Bearer ==> header_message(e) == "bearer token"@ + " has invalid header chars"@,
        e == HeaderError::License ==> header_message(e) == "license jwt"@ + " has invalid header chars"@,
{
    reveal_strlit("bearer token has invalid header chars");
    reveal_strlit("license jwt has invalid header chars");
    reveal_strlit("bearer token");
    reveal_strlit("license jwt");
    reveal_strlit(" has invalid header chars");
    assert("bearer token has invalid header chars"@ =~= "bearer token"@
        + " has invalid header chars"@);
    assert("license jwt has invalid header chars"@ =~= "license jwt"@
        + " has invalid header chars"@);
}

/// Headers are seen as what they hold, in order, and so is a document that may be missing.
pub proof fn law_calls_are_seen_whole(headers: Seq<Header>, doc: &Json)
    ensures
        headers_view(headers).len() == headers.len(),
        forall|i: int|
            0 <= i < headers.len() ==> #[trigger] headers_view(headers)[i] == headers[i]@,
        doc_view(Some(doc)) == Some(doc@),
        doc_view(None) is None,
{
}

} // verus!
