//! Signed tokens: their header, the keys of an issuer, and the check of a token under a key.

use vstd::prelude::*;

use crate::codec::{
    base64url, base64url_decoded, decoded, is_base64url_char, law_decoding_undoes_encoding,
    lemma_base64url,
};
use crate::json::{
    items_view, json_parse, lemma_array_view, tree_get, value_tree, Json, JsonNumber, JsonTree,
};
use crate::text::{lacks, law_second_parts, nth_one, second_segment};

verus! {

/// `jsonwebtoken::jwk::Jwk`, carried through unopened.
#[verifier::external_type_specification]
#[verifier::external_body]
pub struct ExJwk(jsonwebtoken::jwk::Jwk);

/// `jsonwebtoken::jwk::JwkSet`, carried through unopened.
#[verifier::external_type_specification]
#[verifier::external_body]
pub struct ExJwkSet(jsonwebtoken::jwk::JwkSet);

/// `jsonwebtoken::Algorithm`, carried through unopened.
#[verifier::external_type_specification]
#[verifier::external_body]
pub struct ExAlgorithm(jsonwebtoken::Algorithm);

/// `jsonwebtoken::DecodingKey`, carried through unopened.
#[verifier::external_type_specification]
#[verifier::external_body]
pub struct ExDecodingKey(jsonwebtoken::DecodingKey);

/// The keys that a `JwkSet` holds, in order, each with its identifier.
pub uninterp spec fn jwk_set_keys(
    set: jsonwebtoken::jwk::JwkSet,
) -> Seq<(Option<Seq<char>>, jsonwebtoken::jwk::Jwk)>;

/// The key that `DecodingKey::from_jwk` of `jsonwebtoken` builds, or the reason why it builds none.
pub uninterp spec fn jwk_decoding_key(
    jwk: jsonwebtoken::jwk::Jwk,
) -> Result<jsonwebtoken::DecodingKey, Seq<char>>;

/// The algorithm and the key identifier in the header of a token.
pub struct TokenHeader {
    pub alg: jsonwebtoken::Algorithm,
    pub kid: Option<String>,
}

/// A `TokenHeader`, with text as character sequences.
pub struct TokenHeaderView {
    pub alg: jsonwebtoken::Algorithm,
    pub kid: Option<Seq<char>>,
}

impl View for TokenHeader {
    type V = TokenHeaderView;

    open spec fn view(&self) -> TokenHeaderView {
        TokenHeaderView { alg: self.alg, kid: self.kid.deep_view() }
    }
}

/// The header that `decode_header` of `jsonwebtoken` reads from a token, or the reason why it reads
/// none.
pub uninterp spec fn jwt_header(token: Seq<char>) -> Result<TokenHeaderView, Seq<char>>;

/// What a token is held to.
pub struct TokenPolicy {
    /// The algorithm that signed it.
    pub alg: jsonwebtoken::Algorithm,
    /// Who issued it.
    pub issuer: String,
    /// For whom it was issued: at least one of these.
    pub audience: Vec<String>,
    /// The seconds by which clocks may differ.
    pub leeway: u64,
    /// Whether it is refused while it is too early to use it.
    pub validate_nbf: bool,
}

/// A `TokenPolicy`, with text as character sequences.
pub struct TokenPolicyView {
    pub alg: jsonwebtoken::Algorithm,
    pub issuer: Seq<char>,
    pub audience: Seq<Seq<char>>,
    pub leeway: u64,
    pub validate_nbf: bool,
}

impl View for TokenPolicy {
    type V = TokenPolicyView;

    open spec fn view(&self) -> TokenPolicyView {
        TokenPolicyView {
            alg: self.alg,
            issuer: self.issuer@,
            audience: self.audience.deep_view(),
            leeway: self.leeway,
            validate_nbf: self.validate_nbf,
        }
    }
}

/// What `decode` of `jsonwebtoken` makes of a token at a time, in seconds since the epoch: its
/// claims, or the reason why it is not taken.
pub uninterp spec fn token_check(
    token: Seq<char>,
    key: jsonwebtoken::DecodingKey,
    policy: TokenPolicyView,
    now: u64,
) -> Result<JsonTree, Seq<char>>;

/// The first of `keys` that has the given identifier, if one does.
pub open spec fn find_key(
    keys: Seq<(Option<Seq<char>>, jsonwebtoken::jwk::Jwk)>,
    kid: Seq<char>,
) -> Option<jsonwebtoken::jwk::Jwk>
    decreases keys.len(),
{
    if keys.len() == 0 {
        None
    } else if keys[0].0 == Some(kid) {
        Some(keys[0].1)
    } else {
        find_key(keys.drop_first(), kid)
    }
}

/// The bytes that a token carries in its second part, checked or not.
pub open spec fn token_payload(token: Seq<char>) -> Option<Seq<u8>> {
    match second_segment(token, '.') {
        Some(part) => base64url_decoded(part),
        None => None,
    }
}

/// The bytes that a token carries in its second part. Nothing of the token is checked.
pub fn payload_of(token: &str) -> (r: Option<Vec<u8>>)
    ensures
        match r {
            Some(bytes) => token_payload(token@) == Some(bytes@),
            None => token_payload(token@) is None,
        },
{
    match nth_one(token, '.') {
        Some(part) => decoded(part.as_str()),
        None => None,
    }
}

/// The claims that a token carries, checked or not: the JSON value in its second part.
pub open spec fn token_claims(token: Seq<char>) -> Option<JsonTree> {
    match token_payload(token) {
        Some(bytes) => json_parse(bytes),
        None => None,
    }
}

/// Whether a claim names anyone: it is a string or a list of strings.
pub open spec fn names_anyone(claim: Option<JsonTree>) -> bool {
    match claim {
        Some(JsonTree::Str(_)) => true,
        Some(JsonTree::Array(items)) => forall|i: int|
            0 <= i < items.len() ==> #[trigger] items[i] is Str,
        _ => false,
    }
}

/// Whether a claim names one of `allowed`: it is one of them, or a list of strings of which one at
/// least is.
pub open spec fn names_one_of(claim: Option<JsonTree>, allowed: Seq<Seq<char>>) -> bool {
    match claim {
        Some(JsonTree::Str(s)) => allowed.contains(s),
        Some(JsonTree::Array(items)) => {
            &&& forall|i: int| 0 <= i < items.len() ==> #[trigger] items[i] is Str
            &&& exists|i: int|
                0 <= i < items.len() && allowed.contains((#[trigger] items[i])->Str_0)
        },
        _ => false,
    }
}

/// Whether claims say when they end: with a number that is not below zero.
pub open spec fn says_when_over(claims: JsonTree) -> bool {
    match tree_get(claims, "exp"@) {
        Some(JsonTree::Number(JsonNumber::Unsigned(_))) => true,
        Some(JsonTree::Number(JsonNumber::Fractional(n))) => n >= 0,
        _ => false,
    }
}

/// What the check of a token against a policy sees to: claims that name anyone as their issuer or as
/// their audience name the policy's, and claims say when they end. Of a payload that is no object
/// nothing is said.
pub open spec fn claims_meet(claims: JsonTree, policy: TokenPolicyView) -> bool {
    claims is Object ==> {
        &&& names_anyone(tree_get(claims, "iss"@)) ==> names_one_of(
            tree_get(claims, "iss"@),
            seq![policy.issuer],
        )
        &&& names_anyone(tree_get(claims, "aud"@)) ==> names_one_of(
            tree_get(claims, "aud"@),
            policy.audience,
        )
        &&& says_when_over(claims)
    }
}

/// Whether claims are over, by more than clocks may differ. A time that is no integer is known to the
/// second; one past the range of `i64` is not reached.
pub open spec fn is_over(claims: JsonTree, leeway: int, now: int) -> bool {
    match tree_get(claims, "exp"@) {
        Some(JsonTree::Number(JsonNumber::Unsigned(n))) => n + leeway < now,
        Some(JsonTree::Number(JsonNumber::Fractional(n))) => n < i64::MAX && n + 1 + leeway < now,
        _ => false,
    }
}

/// Whether it is too early for claims, by more than clocks may differ.
pub open spec fn is_early(claims: JsonTree, leeway: int, now: int) -> bool {
    match tree_get(claims, "nbf"@) {
        Some(JsonTree::Number(JsonNumber::Unsigned(n))) => n > now + leeway,
        Some(JsonTree::Number(JsonNumber::Fractional(n))) => n < i64::MAX && n > now + leeway,
        _ => false,
    }
}

/// Whether claims are in time: they are not over, nor, where that is looked at, early.
pub open spec fn in_time(claims: JsonTree, policy: TokenPolicyView, now: int) -> bool {
    &&& !is_over(claims, policy.leeway as int, now)
    &&& policy.validate_nbf ==> !is_early(claims, policy.leeway as int, now)
}

/// Why claims are refused at a time, where they are.
pub open spec fn time_refusal(claims: JsonTree, policy: TokenPolicyView, now: int) -> Option<
    Seq<char>,
> {
    if is_over(claims, policy.leeway as int, now) {
        Some("ExpiredSignature"@)
    } else if policy.validate_nbf && is_early(claims, policy.leeway as int, now) {
        Some("ImmatureSignature"@)
    } else {
        None
    }
}

/// Holds claims to a time, in seconds since the epoch: why they are refused, where they are.
pub fn hold_to_time(claims: &Json, policy: &TokenPolicy, now: i64) -> (r: Option<String>)
    ensures
        r.deep_view() == time_refusal(claims@, policy@, now as int),
{
    let leeway: i128 = policy.leeway as i128;
    let now: i128 = now as i128;
    let over = match claims.get("exp") {
        Some(Json::Number(JsonNumber::Unsigned(n))) => *n as i128 + leeway < now,
        Some(Json::Number(JsonNumber::Fractional(n))) => *n < i64::MAX && *n as i128 + 1 + leeway
            < now,
        _ => false,
    };
    if over {
        return Some("ExpiredSignature".to_owned());
    }
    let early = match claims.get("nbf") {
        Some(Json::Number(JsonNumber::Unsigned(n))) => *n as i128 > now + leeway,
        Some(Json::Number(JsonNumber::Fractional(n))) => *n < i64::MAX && *n as i128 > now + leeway,
        _ => false,
    };
    if policy.validate_nbf && early {
        return Some("ImmatureSignature".to_owned());
    }
    None
}

/// Why claims are refused that passed the check, where they are: they name no issuer, or no audience,
/// or are not in time.
pub open spec fn refusal(claims: JsonTree, policy: TokenPolicyView, now: int) -> Option<Seq<char>> {
    if !names_anyone(tree_get(claims, "iss"@)) {
        Some("Missing required claim: iss"@)
    } else if !names_anyone(tree_get(claims, "aud"@)) {
        Some("Missing required claim: aud"@)
    } else {
        time_refusal(claims, policy, now)
    }
}

/// Whether the claim of the given name is a string or a list of strings.
fn has_names(claims: &Json, name: &str) -> (r: bool)
    ensures
        r == names_anyone(tree_get(claims@, name@)),
{
    match claims.get(name) {
        Some(Json::Str(_)) => true,
        Some(Json::Array(items)) => {
            proof {
                lemma_array_view(items);
            }
            let mut i: usize = 0;
            while i < items.len()
                invariant
                    tree_get(claims@, name@) == Some(JsonTree::Array(items_view(items@))),
                    i <= items@.len(),
                    forall|k: int| 0 <= k < i ==> (#[trigger] items_view(items@)[k]) is Str,
                decreases items@.len() - i,
            {
                assert(items_view(items@)[i as int] == items@[i as int]@);
                if items[i].as_str().is_none() {
                    assert(!(items_view(items@)[i as int] is Str));
                    return false;
                }
                i += 1;
            }
            true
        },
        _ => false,
    }
}

/// Holds claims that passed the check to what else a policy asks, at a time in seconds since the
/// epoch: why they are refused, where they are.
pub fn hold_to_policy(claims: &Json, policy: &TokenPolicy, now: i64) -> (r: Option<String>)
    ensures
        r.deep_view() == refusal(claims@, policy@, now as int),
{
    if !has_names(claims, "iss") {
        Some("Missing required claim: iss".to_owned())
    } else if !has_names(claims, "aud") {
        Some("Missing required claim: aud".to_owned())
    } else {
        hold_to_time(claims, policy, now)
    }
}

/// What holds of the claims of a token that passed at some time: they are those that it carries, meet
/// the policy as far as the check sees to it, and are in time.
pub open spec fn passed_at(
    claims: JsonTree,
    token: Seq<char>,
    policy: TokenPolicyView,
    now: u64,
) -> bool {
    &&& token_claims(token) == Some(claims)
    &&& claims_meet(claims, policy)
    &&& in_time(claims, policy, now as int)
}

/// The keys that `serde_json::from_slice` reads from a document; none where it reads no `JwkSet`.
pub uninterp spec fn jwks_parse(doc: Seq<u8>) -> Option<jsonwebtoken::jwk::JwkSet>;

/// Reads the keys of an issuer with `serde_json::from_slice`, as a `JwkSet` of `jsonwebtoken`. The
/// result is named `jwks_parse`.
#[verifier::external_body]
pub(crate) fn parse_jwks(doc: &[u8]) -> (r: Option<jsonwebtoken::jwk::JwkSet>)
    ensures
        r == jwks_parse(doc@),
{
    serde_json::from_slice(doc).ok()
}

/// Looks a key up with `JwkSet::find` of `jsonwebtoken`: the first whose identifier is `kid`.
#[verifier::external_body]
pub(crate) fn find_jwk(set: &jsonwebtoken::jwk::JwkSet, kid: &str) -> (r: Option<
    jsonwebtoken::jwk::Jwk,
>)
    ensures
        r == find_key(jwk_set_keys(*set), kid@),
{
    set.find(kid).cloned()
}

/// Builds a key with `DecodingKey::from_jwk` of `jsonwebtoken`. The result is named
/// `jwk_decoding_key`: the key, or the text of the error.
#[verifier::external_body]
pub(crate) fn decoding_key(jwk: &jsonwebtoken::jwk::Jwk) -> (r: Result<
    jsonwebtoken::DecodingKey,
    String,
>)
    ensures
        match r {
            Ok(key) => jwk_decoding_key(*jwk) == Ok::<jsonwebtoken::DecodingKey, Seq<char>>(key),
            Err(e) => jwk_decoding_key(*jwk) == Err::<jsonwebtoken::DecodingKey, Seq<char>>(e@),
        },
{
    jsonwebtoken::DecodingKey::from_jwk(jwk).map_err(|e| e.to_string())
}

/// Reads the header of a token with `decode_header` of `jsonwebtoken`. The result is named
/// `jwt_header`: the algorithm and the key identifier, or the text of the error.
#[verifier::external_body]
pub(crate) fn read_header(token: &str) -> (r: Result<TokenHeader, String>)
    ensures
        match r {
            Ok(h) => jwt_header(token@) == Ok::<TokenHeaderView, Seq<char>>(h@),
            Err(e) => jwt_header(token@) == Err::<TokenHeaderView, Seq<char>>(e@),
        },
{
    match jsonwebtoken::decode_header(token) {
        Ok(h) => Ok(TokenHeader { alg: h.alg, kid: h.kid }),
        Err(e) => Err(e.to_string()),
    }
}

/// Checks a token with `decode` of `jsonwebtoken`, under a `Validation` that takes the parts of the
/// policy one by one and requires the claim `exp` alone. The result is named `token_check`, at the
/// time of the call: the claims, or the text of the error. Claims that come back are those that the
/// token carries and say when they end, are in time, and name the audience and the issuer where they
/// name anyone. That the signature is good is part of the name and not spelled out. The leeway is
/// taken off the time in seconds, so it is bounded.
#[verifier::external_body]
pub(crate) fn check_token(
    token: &str,
    key: &jsonwebtoken::DecodingKey,
    policy: &TokenPolicy,
) -> (r: Result<serde_json::Value, String>)
    requires
        policy.leeway <= 3600,
    ensures
        match r {
            Ok(v) => exists|now: u64|
                {
                    &&& #[trigger] token_check(token@, *key, policy@, now) == Ok::<
                        JsonTree,
                        Seq<char>,
                    >(value_tree(v))
                    &&& passed_at(value_tree(v), token@, policy@, now)
                },
            Err(e) => exists|now: u64| #[trigger]
                token_check(token@, *key, policy@, now) == Err::<JsonTree, Seq<char>>(e@),
        },
{
    let mut validation = jsonwebtoken::Validation::new(policy.alg);
    validation.set_issuer(&[policy.issuer.as_str()]);
    validation.set_audience(&policy.audience);
    validation.leeway = policy.leeway;
    validation.validate_nbf = policy.validate_nbf;
    match jsonwebtoken::decode(token, key, &validation) {
        Ok(data) => Ok(data.claims),
        Err(e) => Err(e.to_string()),
    }
}

/// The key of a name is the first that has it: there is none where no key has the name, and what
/// stands before and after it does not matter.
pub proof fn law_keys_are_found_by_name(
    before: Seq<(Option<Seq<char>>, jsonwebtoken::jwk::Jwk)>,
    after: Seq<(Option<Seq<char>>, jsonwebtoken::jwk::Jwk)>,
    kid: Seq<char>,
    jwk: jsonwebtoken::jwk::Jwk,
)
    requires
        forall|i: int| 0 <= i < before.len() ==> (#[trigger] before[i]).0 != Some(kid),
    ensures
        find_key(before, kid) is None,
        find_key(before + seq![(Some(kid), jwk)] + after, kid) == Some(jwk),
    decreases before.len(),
{
    let all = before + seq![(Some(kid), jwk)] + after;
    if before.len() == 0 {
        assert(all[0] == (Some(kid), jwk));
    } else {
        let later = before.drop_first();
        assert forall|i: int| 0 <= i < later.len() implies (#[trigger] later[i]).0 != Some(kid) by {
            assert(later[i] == before[i + 1]);
        }
        law_keys_are_found_by_name(later, after, kid, jwk);
        assert(before[0].0 != Some(kid));
        assert(all[0] == before[0]);
        assert(all.drop_first() =~= later + seq![(Some(kid), jwk)] + after);
    }
}

/// A token carries the bytes that its second part encodes, whatever its other parts are; what has no
/// second part carries nothing.
pub proof fn law_tokens_carry_their_second_part(head: Seq<char>, bytes: Seq<u8>, rest: Seq<char>)
    requires
        lacks(head, '.'),
    ensures
        token_payload(head + seq!['.'] + base64url(bytes) + seq!['.'] + rest) == Some(bytes),
        token_claims(head + seq!['.'] + base64url(bytes) + seq!['.'] + rest) == json_parse(bytes),
        token_payload(head) is None,
        token_claims(head) is None,
{
    let part = base64url(bytes);
    lemma_base64url(bytes);
    law_decoding_undoes_encoding(bytes);
    assert forall|k: int| 0 <= k < part.len() implies part[k] != '.' by {
        assert(is_base64url_char(part[k]));
    }
    law_second_parts(head, part, rest, '.');
}

/// A claim names someone where it is a text or a list of texts, and names one of some where that is
/// one of them or a list with one of them in it.
pub proof fn law_names(
    text: Seq<char>,
    items: Seq<JsonTree>,
    other: JsonTree,
    allowed: Seq<Seq<char>>,
    name: Seq<char>,
)
    ensures
        names_anyone(Some(JsonTree::Str(text))),
        names_one_of(Some(JsonTree::Str(text)), allowed) <==> allowed.contains(text),
        names_anyone(Some(JsonTree::Array(items))) <==> forall|i: int|
            0 <= i < items.len() ==> #[trigger] items[i] is Str,
        names_anyone(Some(JsonTree::Array(items))) && items.contains(JsonTree::Str(name))
            && allowed.contains(name) ==> names_one_of(Some(JsonTree::Array(items)), allowed),
        names_one_of(Some(JsonTree::Array(items)), seq![name]) ==> items.contains(
            JsonTree::Str(name),
        ) && names_anyone(Some(JsonTree::Array(items))),
        other !is Str && other !is Array ==> !names_anyone(Some(other)) && !names_one_of(
            Some(other),
            allowed,
        ),
        !names_anyone(None),
        !names_one_of(None, allowed),
{
    if items.contains(JsonTree::Str(name)) && allowed.contains(name) {
        let i = choose|i: int| 0 <= i < items.len() && items[i] == JsonTree::Str(name);
        assert(items[i]->Str_0 == name);
    }
    if names_one_of(Some(JsonTree::Array(items)), seq![name]) {
        let i = choose|i: int|
            0 <= i < items.len() && seq![name].contains((#[trigger] items[i])->Str_0);
        assert(items[i] == JsonTree::Str(name));
    }
}

/// Claims end at their `exp` and begin at their `nbf`, give or take the leeway: they are over from
/// when more than the leeway has passed since they ended, and early while more than the leeway is to
/// pass before they begin. A fraction of a second is given to the claims, and a time that is no number
/// neither ends nor begins them.
pub proof fn law_times(claims: JsonTree, n: u64, i: i64, leeway: int, now: int)
    requires
        0 <= leeway,
    ensures
        tree_get(claims, "exp"@) == Some(JsonTree::Number(JsonNumber::Unsigned(n))) ==> (is_over(
            claims,
            leeway,
            now,
        ) <==> now - n > leeway),
        tree_get(claims, "exp"@) == Some(JsonTree::Number(JsonNumber::Fractional(i))) && i < i64::MAX
            ==> (is_over(claims, leeway, now) <==> now - (i + 1) > leeway),
        !(tree_get(claims, "exp"@) matches Some(JsonTree::Number(_))) ==> !is_over(claims, leeway, now),
        tree_get(claims, "nbf"@) == Some(JsonTree::Number(JsonNumber::Unsigned(n))) ==> (is_early(
            claims,
            leeway,
            now,
        ) <==> n - now > leeway),
        tree_get(claims, "nbf"@) == Some(JsonTree::Number(JsonNumber::Fractional(i))) && i < i64::MAX
            ==> (is_early(claims, leeway, now) <==> i - now > leeway),
        !(tree_get(claims, "nbf"@) matches Some(JsonTree::Number(_))) ==> !is_early(claims, leeway, now),
        is_over(claims, leeway, now) ==> is_over(claims, leeway, now + 1),
        is_early(claims, leeway, now) ==> is_early(claims, leeway, now - 1),
{
}

/// Claims say when they end where their `exp` is a number that is not below zero.
pub proof fn law_ends(claims: JsonTree, n: u64, i: i64)
    ensures
        tree_get(claims, "exp"@) == Some(JsonTree::Number(JsonNumber::Unsigned(n)))
            ==> says_when_over(claims),
        tree_get(claims, "exp"@) == Some(JsonTree::Number(JsonNumber::Fractional(i))) ==> (
        says_when_over(claims) <==> i >= 0),
        !(tree_get(claims, "exp"@) matches Some(JsonTree::Number(_))) ==> !says_when_over(claims),
{
}

/// Claims that passed the check are refused for four reasons and no other: that they name no issuer,
/// that they name no audience, that they are over, and that they are early where that is looked at.
/// The first of the reasons is given.
pub proof fn law_refusals(claims: JsonTree, policy: TokenPolicyView, now: int)
    ensures
        ({
            let issued = names_anyone(tree_get(claims, "iss"@));
            let meant = names_anyone(tree_get(claims, "aud"@));
            let over = is_over(claims, policy.leeway as int, now);
            let early = is_early(claims, policy.leeway as int, now);
            let refused = refusal(claims, policy, now);
            &&& refused is None <==> issued && meant && !over && !(policy.validate_nbf && early)
            &&& !issued ==> refused == Some("Missing required claim: iss"@)
            &&& issued && !meant ==> refused == Some("Missing required claim: aud"@)
            &&& issued && meant && over ==> refused == Some("ExpiredSignature"@)
            &&& issued && meant && !over && policy.validate_nbf && early ==> refused == Some(
                "ImmatureSignature"@,
            )
        }),
{
}

/// What a token is held to is seen as what it holds, and so is the header of a token.
pub proof fn law_policies_are_seen_whole(policy: TokenPolicy, header: TokenHeader)
    ensures
        policy@.alg == policy.alg,
        policy@.issuer == policy.issuer@,
        policy@.audience.len() == policy.audience@.len(),
        forall|i: int|
            0 <= i < policy.audience@.len() ==> #[trigger] policy@.audience[i] == policy.audience@[i]@,
        policy@.leeway == policy.leeway,
        policy@.validate_nbf == policy.validate_nbf,
        header@.alg == header.alg,
        header@.kid is Some <==> header.kid is Some,
        header.kid matches Some(kid) ==> header@.kid == Some(kid@),
{
}

} // verus!
