//! URLs: reading one, and appending pairs to the query of one.

use vstd::prelude::*;
use vstd::utf8::encode_utf8;

verus! {

/// What the library reads of a URL.
pub struct Link {
    /// The URL in its normal form.
    pub text: String,
    pub scheme: String,
    pub host: Option<String>,
}

/// A `Link`, with text as character sequences.
pub struct LinkView {
    pub text: Seq<char>,
    pub scheme: Seq<char>,
    pub host: Option<Seq<char>>,
}

impl View for Link {
    type V = LinkView;

    open spec fn view(&self) -> LinkView {
        LinkView { text: self.text@, scheme: self.scheme@, host: self.host.deep_view() }
    }
}

/// What `Url::parse` of `url` makes of a text: a URL, or the reason why it is none.
pub uninterp spec fn url_parse(text: Seq<char>) -> Result<LinkView, Seq<char>>;

/// The URL that `query_pairs_mut` and `extend_pairs` of `url` make of a URL and pairs to append.
pub uninterp spec fn url_with_pairs(
    text: Seq<char>,
    pairs: Seq<(Seq<char>, Seq<char>)>,
) -> Seq<char>;

/// Whether a byte stands for itself in a query. A space is one character too.
pub open spec fn is_form_byte(b: u8) -> bool {
    ||| 48 <= b <= 57
    ||| 65 <= b <= 90
    ||| 97 <= b <= 122
    ||| b == 42
    ||| b == 45
    ||| b == 46
    ||| b == 95
    ||| b == 32
}

/// The number of characters that bytes take in a query.
pub open spec fn encoded_size(bytes: Seq<u8>) -> nat
    decreases bytes.len(),
{
    if bytes.len() == 0 {
        0
    } else {
        encoded_size(bytes.drop_last()) + if is_form_byte(bytes.last()) {
            1nat
        } else {
            3nat
        }
    }
}

/// The number of characters that pairs take in a query, with what stands between them.
pub open spec fn pairs_size(pairs: Seq<(Seq<char>, Seq<char>)>) -> nat
    decreases pairs.len(),
{
    if pairs.len() == 0 {
        0
    } else {
        pairs_size(pairs.drop_last()) + encoded_size(encode_utf8(pairs.last().0)) + encoded_size(
            encode_utf8(pairs.last().1),
        ) + 2
    }
}

/// The last place that a URL has.
pub const URL_LIMIT: u64 = 0xffff_ffff;

/// Whether pairs can be appended to the query of a URL of the given length.
pub open spec fn has_room(len: nat, pairs: Seq<(Seq<char>, Seq<char>)>) -> bool {
    len + 1 + pairs_size(pairs) <= URL_LIMIT
}

/// Whether pairs can be appended to the query of a URL. To what is no URL nothing is appended.
pub open spec fn fits_url(text: Seq<char>, pairs: Seq<(Seq<char>, Seq<char>)>) -> bool {
    url_parse(text) matches Ok(link) ==> has_room(link.text.len(), pairs)
}

proof fn lemma_encoded_size_grows(bytes: Seq<u8>, n: int)
    requires
        0 <= n <= bytes.len(),
    ensures
        encoded_size(bytes.take(n)) <= encoded_size(bytes),
    decreases bytes.len(),
{
    if n < bytes.len() {
        lemma_encoded_size_grows(bytes.drop_last(), n);
        assert(bytes.drop_last().take(n) =~= bytes.take(n));
    } else {
        assert(bytes.take(n) =~= bytes);
    }
}

proof fn lemma_pairs_size_grows(pairs: Seq<(Seq<char>, Seq<char>)>, n: int)
    requires
        0 <= n <= pairs.len(),
    ensures
        pairs_size(pairs.take(n)) <= pairs_size(pairs),
    decreases pairs.len(),
{
    if n < pairs.len() {
        lemma_pairs_size_grows(pairs.drop_last(), n);
        assert(pairs.drop_last().take(n) =~= pairs.take(n));
    } else {
        assert(pairs.take(n) =~= pairs);
    }
}

/// The number of characters that a text takes in a query, where that is within the limit.
fn text_size(text: &str) -> (r: Option<u64>)
    ensures
        match r {
            Some(n) => n == encoded_size(encode_utf8(text@)) && n <= URL_LIMIT,
            None => encoded_size(encode_utf8(text@)) > URL_LIMIT,
        },
{
    let bytes = text.as_bytes();
    let ghost all = encode_utf8(text@);
    let mut total: u64 = 0;
    let mut i: usize = 0;
    assert(all.take(0) =~= Seq::empty());
    while i < bytes.len()
        invariant
            bytes@ == all,
            all == encode_utf8(text@),
            i <= bytes@.len(),
            total == encoded_size(all.take(i as int)),
            total <= URL_LIMIT,
        decreases bytes@.len() - i,
    {
        proof {
            lemma_encoded_size_grows(all, i + 1);
            assert(all.take(i + 1).drop_last() =~= all.take(i as int));
            assert(all.take(i + 1).last() == bytes@[i as int]);
        }
        let b: u8 = bytes[i];
        let plain = 48 <= b && b <= 57 || 65 <= b && b <= 90 || 97 <= b && b <= 122 || b == 42 || b
            == 45 || b == 46 || b == 95 || b == 32;
        total = total + if plain { 1 } else { 3 };
        if total > URL_LIMIT {
            return None;
        }
        i += 1;
    }
    assert(all.take(i as int) =~= all);
    Some(total)
}

/// Whether pairs can be appended to the query of a URL of the given length.
pub fn request_fits(len: usize, pairs: &Vec<(String, String)>) -> (r: bool)
    ensures
        r == has_room(len as nat, pairs.deep_view()),
{
    let ghost all = pairs.deep_view();
    if len as u64 >= URL_LIMIT {
        return false;
    }
    let mut total: u64 = len as u64 + 1;
    let mut i: usize = 0;
    assert(all.take(0) =~= Seq::empty());
    while i < pairs.len()
        invariant
            all == pairs.deep_view(),
            i <= pairs@.len(),
            total == len + 1 + pairs_size(all.take(i as int)),
            total <= URL_LIMIT,
        decreases pairs@.len() - i,
    {
        proof {
            lemma_pairs_size_grows(all, i + 1);
            assert(all.take(i + 1).drop_last() =~= all.take(i as int));
            assert(all.take(i + 1).last() == (pairs@[i as int].0@, pairs@[i as int].1@));
        }
        let name: u64 = match text_size(pairs[i].0.as_str()) {
            Some(n) => n,
            None => {
                return false;
            },
        };
        let value: u64 = match text_size(pairs[i].1.as_str()) {
            Some(n) => n,
            None => {
                return false;
            },
        };
        total = total + name + value + 2;
        if total > URL_LIMIT {
            return false;
        }
        i += 1;
    }
    assert(all.take(i as int) =~= all);
    true
}

/// Reads a URL with `Url::parse` of `url`. The result is named `url_parse`: the normal form, the
/// scheme and the host, or the text of the error.
#[verifier::external_body]
pub(crate) fn parse_link(text: &str) -> (r: Result<Link, String>)
    ensures
        match r {
            Ok(link) => url_parse(text@) == Ok::<LinkView, Seq<char>>(link@),
            Err(e) => url_parse(text@) == Err::<LinkView, Seq<char>>(e@),
        },
{
    match url::Url::parse(text) {
        Ok(u) => Ok(
            Link {
                text: u.as_str().to_owned(),
                scheme: u.scheme().to_owned(),
                host: u.host_str().map(str::to_owned),
            },
        ),
        Err(e) => Err(e.to_string()),
    }
}

/// Appends pairs to the query of a URL with `Url::query_pairs_mut` and `Serializer::extend_pairs` of
/// `url`, which appends them one by one in order. The result is named `url_with_pairs` where the
/// text is a URL, and is the error of `Url::parse` where it is none. `url` holds places in a URL as
/// 32-bit numbers and panics past them, so the URL and the pairs, as a form encodes them, are bounded.
#[verifier::external_body]
pub(crate) fn append_pairs(text: &str, pairs: &Vec<(String, String)>) -> (r: Result<String, String>)
    requires
        fits_url(text@, pairs.deep_view()),
    ensures
        match r {
            Ok(t) => url_parse(text@) is Ok && t@ == url_with_pairs(text@, pairs.deep_view()),
            Err(e) => url_parse(text@) == Err::<LinkView, Seq<char>>(e@),
        },
{
    let mut u = url::Url::parse(text).map_err(|e| e.to_string())?;
    u.query_pairs_mut().extend_pairs(pairs);
    Ok(u.into())
}

/// A letter, a digit, a space and each of `*`, `-`, `.` and `_` takes one character in a query, and
/// every other byte three. Bytes take together what they take apart.
pub proof fn law_encoded_sizes(a: Seq<u8>, b: Seq<u8>, x: u8)
    ensures
        encoded_size(a + b) == encoded_size(a) + encoded_size(b),
        encoded_size(seq![x]) == if 48 <= x <= 57 || 65 <= x <= 90 || 97 <= x <= 122 || x == 42 || x
            == 45 || x == 46 || x == 95 || x == 32 {
            1int
        } else {
            3int
        },
        encoded_size(Seq::empty()) == 0,
    decreases b.len(),
{
    let one = seq![x];
    assert(one.drop_last() =~= Seq::empty());
    assert(encoded_size(one.drop_last()) == 0);
    assert(one.last() == x);
    if b.len() == 0 {
        assert(a + b =~= a);
    } else {
        law_encoded_sizes(a, b.drop_last(), x);
        assert((a + b).drop_last() =~= a + b.drop_last());
        assert((a + b).last() == b.last());
    }
}

/// A pair takes what its name and its value take, and two characters beside. Pairs take together what
/// they take apart.
pub proof fn law_pair_sizes(
    a: Seq<(Seq<char>, Seq<char>)>,
    b: Seq<(Seq<char>, Seq<char>)>,
    name: Seq<char>,
    value: Seq<char>,
)
    ensures
        pairs_size(a + b) == pairs_size(a) + pairs_size(b),
        pairs_size(seq![(name, value)]) == encoded_size(encode_utf8(name)) + encoded_size(
            encode_utf8(value),
        ) + 2,
        pairs_size(Seq::empty()) == 0,
    decreases b.len(),
{
    let one = seq![(name, value)];
    assert(one.drop_last() =~= Seq::empty());
    assert(pairs_size(one.drop_last()) == 0);
    assert(one.last() == (name, value));
    if b.len() == 0 {
        assert(a + b =~= a);
    } else {
        law_pair_sizes(a, b.drop_last(), name, value);
        assert((a + b).drop_last() =~= a + b.drop_last());
        assert((a + b).last() == b.last());
    }
}

/// Pairs fit a URL while it is no longer with them than the largest place that 32 bits hold, and what
/// is no URL takes any.
pub proof fn law_room(text: Seq<char>, len: nat, pairs: Seq<(Seq<char>, Seq<char>)>)
    ensures
        has_room(len, pairs) <==> len + 1 + pairs_size(pairs) < 0x1_0000_0000,
        match url_parse(text) {
            Ok(link) => fits_url(text, pairs) <==> has_room(link.text.len(), pairs),
            Err(e) => fits_url(text, pairs),
        },
{
}

} // verus!
