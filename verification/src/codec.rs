//! Encodings, digests and random bytes.

use vstd::prelude::*;

verus! {

/// The SHA-256 digest of bytes.
pub uninterp spec fn sha256(bytes: Seq<u8>) -> Seq<u8>;

/// The character for a number below 64 in the URL-safe base64 alphabet.
pub open spec fn symbol(n: int) -> char {
    if n < 26 {
        ('A' as int + n) as char
    } else if n < 52 {
        ('a' as int + n - 26) as char
    } else if n < 62 {
        ('0' as int + n - 52) as char
    } else if n == 62 {
        '-'
    } else {
        '_'
    }
}

/// Whether `c` is a character of the URL-safe base64 alphabet.
pub open spec fn is_base64url_char(c: char) -> bool {
    ||| 'A' <= c <= 'Z'
    ||| 'a' <= c <= 'z'
    ||| '0' <= c <= '9'
    ||| c == '-'
    ||| c == '_'
}

/// The URL-safe base64 form of bytes, without padding: a character for each six bits, and zero bits
/// after the last byte where it ends within a character.
pub open spec fn base64url(bytes: Seq<u8>) -> Seq<char>
    decreases bytes.len(),
{
    if bytes.len() == 0 {
        Seq::empty()
    } else if bytes.len() == 1 {
        seq![symbol(bytes[0] as int / 4), symbol(bytes[0] as int % 4 * 16)]
    } else if bytes.len() == 2 {
        seq![
            symbol(bytes[0] as int / 4),
            symbol(bytes[0] as int % 4 * 16 + bytes[1] as int / 16),
            symbol(bytes[1] as int % 16 * 4),
        ]
    } else {
        seq![
            symbol(bytes[0] as int / 4),
            symbol(bytes[0] as int % 4 * 16 + bytes[1] as int / 16),
            symbol(bytes[1] as int % 16 * 4 + bytes[2] as int / 64),
            symbol(bytes[2] as int % 64),
        ] + base64url(bytes.skip(3))
    }
}

/// The bytes whose URL-safe base64 form without padding is the given text, if there are such bytes.
pub open spec fn base64url_decoded(text: Seq<char>) -> Option<Seq<u8>> {
    if exists|bytes: Seq<u8>| #[trigger] base64url(bytes) == text {
        Some(choose|bytes: Seq<u8>| #[trigger] base64url(bytes) == text)
    } else {
        None
    }
}

proof fn lemma_symbol(a: int, b: int)
    requires
        0 <= a < 64,
        0 <= b < 64,
    ensures
        is_base64url_char(symbol(a)),
        symbol(a) == symbol(b) ==> a == b,
{
}

/// The form of bytes is made of characters of the alphabet, four for three bytes, the last group cut
/// short.
pub proof fn lemma_base64url(bytes: Seq<u8>)
    ensures
        base64url(bytes).len() == (4 * bytes.len() + 2) / 3,
        forall|i: int|
            0 <= i < base64url(bytes).len() ==> is_base64url_char(#[trigger] base64url(bytes)[i]),
    decreases bytes.len(),
{
    if bytes.len() >= 3 {
        let rest = base64url(bytes.skip(3));
        lemma_base64url(bytes.skip(3));
        assert(forall|i: int|
            4 <= i < base64url(bytes).len() ==> #[trigger] base64url(bytes)[i] == rest[i - 4]);
    }
}

/// Different bytes have different forms.
pub proof fn law_base64url_is_one_to_one(a: Seq<u8>, b: Seq<u8>)
    requires
        base64url(a) == base64url(b),
    ensures
        a == b,
    decreases a.len(),
{
    lemma_base64url(a);
    lemma_base64url(b);
    let text = base64url(a);
    assert(a.len() == b.len());
    if a.len() >= 1 {
        assert(symbol(a[0] as int / 4) == text[0]);
        assert(symbol(b[0] as int / 4) == text[0]);
        lemma_symbol(a[0] as int / 4, b[0] as int / 4);
    }
    if a.len() == 1 {
        assert(symbol(a[0] as int % 4 * 16) == text[1]);
        assert(symbol(b[0] as int % 4 * 16) == text[1]);
        lemma_symbol(a[0] as int % 4 * 16, b[0] as int % 4 * 16);
    }
    if a.len() >= 2 {
        assert(symbol(a[0] as int % 4 * 16 + a[1] as int / 16) == text[1]);
        assert(symbol(b[0] as int % 4 * 16 + b[1] as int / 16) == text[1]);
        lemma_symbol(
            a[0] as int % 4 * 16 + a[1] as int / 16,
            b[0] as int % 4 * 16 + b[1] as int / 16,
        );
        assert(a[0] == b[0]);
    }
    if a.len() == 2 {
        assert(symbol(a[1] as int % 16 * 4) == text[2]);
        assert(symbol(b[1] as int % 16 * 4) == text[2]);
        lemma_symbol(a[1] as int % 16 * 4, b[1] as int % 16 * 4);
    }
    if a.len() >= 3 {
        assert(symbol(a[1] as int % 16 * 4 + a[2] as int / 64) == text[2]);
        assert(symbol(b[1] as int % 16 * 4 + b[2] as int / 64) == text[2]);
        lemma_symbol(
            a[1] as int % 16 * 4 + a[2] as int / 64,
            b[1] as int % 16 * 4 + b[2] as int / 64,
        );
        assert(symbol(a[2] as int % 64) == text[3]);
        assert(symbol(b[2] as int % 64) == text[3]);
        lemma_symbol(a[2] as int % 64, b[2] as int % 64);
        assert(base64url(a.skip(3)) =~= text.skip(4));
        assert(base64url(b.skip(3)) =~= text.skip(4));
        law_base64url_is_one_to_one(a.skip(3), b.skip(3));
        assert(a =~= seq![a[0], a[1], a[2]] + a.skip(3));
        assert(b =~= seq![b[0], b[1], b[2]] + b.skip(3));
    }
    assert(a =~= b);
}

/// What was encoded is decoded to what it was.
pub proof fn law_decoding_undoes_encoding(bytes: Seq<u8>)
    ensures
        base64url_decoded(base64url(bytes)) == Some(bytes),
{
    law_base64url_is_one_to_one(base64url_decoded(base64url(bytes))->0, bytes);
}

/// Encodes with `URL_SAFE_NO_PAD.encode` of `base64`, which gives the form that `base64url` says.
#[verifier::external_body]
pub(crate) fn encode_base64url(bytes: &[u8]) -> (r: String)
    requires
        bytes@.len() <= 0x3fff_ffff,
    ensures
        r@ == base64url(bytes@),
{
    base64::Engine::encode(&base64::engine::general_purpose::URL_SAFE_NO_PAD, bytes)
}

/// Decodes with `URL_SAFE_NO_PAD.decode` of `base64`, which takes the form of some bytes, without
/// padding and with zero bits at the end, and no other text.
#[verifier::external_body]
pub(crate) fn decode_base64url(text: &str) -> (r: Option<Vec<u8>>)
    ensures
        match r {
            Some(bytes) => base64url(bytes@) == text@,
            None => forall|bytes: Seq<u8>| #[trigger] base64url(bytes) != text@,
        },
{
    base64::Engine::decode(&base64::engine::general_purpose::URL_SAFE_NO_PAD, text).ok()
}

/// The bytes whose form is the given text.
pub fn decoded(text: &str) -> (r: Option<Vec<u8>>)
    ensures
        match r {
            Some(bytes) => base64url_decoded(text@) == Some(bytes@),
            None => base64url_decoded(text@) is None,
        },
{
    let r = decode_base64url(text);
    proof {
        if r is Some {
            law_decoding_undoes_encoding(r->0@);
        }
    }
    r
}

/// Digests with `Sha256` of `sha2`. The result is named `sha256` and holds 32 bytes.
#[verifier::external_body]
pub(crate) fn digest_sha256(bytes: &[u8]) -> (r: Vec<u8>)
    ensures
        r@ == sha256(bytes@),
        r@.len() == 32,
{
    <sha2::Sha256 as sha2::Digest>::digest(bytes).to_vec()
}

/// Fills `n` bytes with `OsRng.fill_bytes` of `rand`. Which bytes come is left to the system, without
/// whose randomness the call does not return.
#[verifier::external_body]
pub(crate) fn random_bytes(n: usize) -> (r: Vec<u8>)
    ensures
        r@.len() == n,
{
    let mut bytes = vec![0u8; n];
    rand::RngCore::fill_bytes(&mut rand::rngs::OsRng, &mut bytes);
    bytes
}

/// A text is decoded to the bytes that it is the form of, if and only if it is the form of some.
pub proof fn law_encoding_undoes_decoding(text: Seq<char>, bytes: Seq<u8>)
    ensures
        base64url_decoded(text) == Some(bytes) <==> base64url(bytes) == text,
        base64url_decoded(text) is None ==> base64url(bytes) != text,
{
    if base64url(bytes) == text {
        law_decoding_undoes_encoding(bytes);
    }
}

} // verus!
