//! URLs parsed and extended by the `url` crate, held with their text.
use vstd::prelude::*;
use vstd::utf8::encode_utf8;

use url::Url;

verus! {

/// `url::Url`, carried opaquely.
#[verifier::external_type_specification]
#[verifier::external_body]
pub struct ExUrl(Url);

/// `url::ParseError`, carried opaquely.
#[verifier::external_type_specification]
#[verifier::external_body]
pub struct ExUrlParseError(url::ParseError);

/// The serialization of `Url::parse(text)`, or `None` where it fails.
pub uninterp spec fn url_parsed(text: Seq<char>) -> Option<Seq<char>>;

/// The serialization of the URL serialized as `url` after
/// `query_pairs_mut().append_pair(name, value)`.
pub uninterp spec fn url_with_query_pair(url: Seq<char>, name: Seq<char>, value: Seq<char>) -> Seq<char>;

/// Bytes that form-urlencoding writes as they are: `*`, `-`, `.`, `_`,
/// ASCII digits and letters.
pub open spec fn form_unchanged(b: u8) -> bool {
    b == 42 || b == 45 || b == 46 || b == 95 || (48 <= b <= 57) || (65 <= b <= 90) || (97 <= b <= 122)
}

/// The upper-case hexadecimal digit of `n` (0 to 15).
pub open spec fn hex_upper(n: int) -> char {
    if n < 10 {
        (n + 48) as char
    } else {
        (n + 55) as char
    }
}

/// One byte form-urlencoded: itself when unchanged, `+` for a space, else
/// `%` and two upper-case hexadecimal digits.
pub open spec fn form_byte(b: u8) -> Seq<char> {
    if form_unchanged(b) {
        seq![b as char]
    } else if b == 32 {
        seq!['+']
    } else {
        seq!['%', hex_upper((b / 16) as int), hex_upper((b % 16) as int)]
    }
}

/// `bytes` form-urlencoded (`application/x-www-form-urlencoded`).
pub open spec fn form_encoded(bytes: Seq<u8>) -> Seq<char>
    decreases bytes.len(),
{
    if bytes.len() == 0 {
        Seq::empty()
    } else {
        form_encoded(bytes.drop_last()) + form_byte(bytes.last())
    }
}

/// The query pair `name=value`, each side form-urlencoded from its UTF-8.
pub open spec fn query_pair(name: Seq<char>, value: Seq<char>) -> Seq<char> {
    form_encoded(encode_utf8(name)) + seq!['='] + form_encoded(encode_utf8(value))
}

/// `c` does not occur in `text`.
pub open spec fn lacks(text: Seq<char>, c: char) -> bool {
    forall|i: int| 0 <= i < text.len() ==> text[i] != c
}

/// `text` has exactly one `?`, and it is not the last character.
pub open spec fn one_inner_question_mark(text: Seq<char>) -> bool {
    exists|i: int|
        0 <= i < text.len() - 1 && #[trigger] text[i] == '?' && forall|j: int| 0 <= j < text.len() && text[j] == '?' ==> j == i
}

/// The endpoint of stooq's daily history download, as text.
pub open spec fn stooq_history_endpoint() -> Seq<char> {
    "https://stooq.com/q/d/l/"@
}

/// Form-urlencoded text holds neither `?` nor `#`.
pub proof fn lemma_form_encoded_lacks(bytes: Seq<u8>)
    ensures
        lacks(form_encoded(bytes), '?'),
        lacks(form_encoded(bytes), '#'),
    decreases bytes.len(),
{
    if bytes.len() > 0 {
        lemma_form_encoded_lacks(bytes.drop_last());
        let b = bytes.last();
        let fb = form_byte(b);
        let prev = form_encoded(bytes.drop_last());
        assert forall|i: int| 0 <= i < fb.len() implies fb[i] != '?' && fb[i] != '#' by {
            if form_unchanged(b) {
                assert((b as char) as int == b as int);
            } else if b != 32 {
                let hi: int = (b / 16) as int;
                let lo: int = (b % 16) as int;
                assert(0 <= hi < 16 && 0 <= lo < 16);
                if hi < 10 {
                    assert(((hi + 48) as char) as int == hi + 48);
                } else {
                    assert(((hi + 55) as char) as int == hi + 55);
                }
                if lo < 10 {
                    assert(((lo + 48) as char) as int == lo + 48);
                } else {
                    assert(((lo + 55) as char) as int == lo + 55);
                }
            }
        }
        assert forall|i: int| 0 <= i < form_encoded(bytes).len() implies form_encoded(bytes)[i] != '?'
            && form_encoded(bytes)[i] != '#' by {
            if i < prev.len() {
                assert(form_encoded(bytes)[i] == prev[i]);
            } else {
                assert(form_encoded(bytes)[i] == fb[i - prev.len()]);
            }
        }
    }
}

/// Why a text is no URL.
#[derive(Debug, Clone, Copy, PartialEq, Eq, Structural)]
pub enum UrlError {
    /// `url::Url::parse` refused the text.
    Invalid,
}

/// A parsed URL together with its serialization.
pub struct WebUrl {
    url: Url,
    text: String,
}

impl View for WebUrl {
    type V = Seq<char>;

    /// The URL's serialization.
    closed spec fn view(&self) -> Seq<char> {
        self.text@
    }
}

/// Parses `text` with `url::Url::parse`.
///
/// Trusted: `Url::parse`; the serialization is read with `as_str`, one for
/// one, and named by `url_parsed`. Besides the name, the contract states one
/// fact: the endpoint `https://stooq.com/q/d/l/`, already in the form the URL
/// standard serializes to (lower-case scheme and host, default port left out,
/// a path without dot segments or characters to escape), parses to itself.
#[verifier::external_body]
fn parse_url(text: &str) -> (r: Result<WebUrl, url::ParseError>)
    ensures
        r is Ok <==> url_parsed(text@) is Some,
        r matches Ok(u) ==> url_parsed(text@) == Some(u@),
        text@ == stooq_history_endpoint() ==> r is Ok,
        r matches Ok(u) ==> (text@ == stooq_history_endpoint() ==> u@ == text@),
{
    let url = Url::parse(text)?;
    let text = url.as_str().to_string();
    Ok(WebUrl { url, text })
}

impl WebUrl {
    /// Parses `text` as a URL.
    pub fn parse(text: &str) -> (r: Result<WebUrl, UrlError>)
        ensures
            r is Ok <==> url_parsed(text@) is Some,
            r matches Ok(u) ==> url_parsed(text@) == Some(u@),
            text@ == stooq_history_endpoint() ==> (r matches Ok(u) && u@ == text@),
    {
        match parse_url(text) {
            Ok(u) => Ok(u),
            Err(_) => Err(UrlError::Invalid),
        }
    }

    /// Appends `name=value` to the query, form-urlencoded (in place).
    ///
    /// Trusted: `url::form_urlencoded::Serializer::append_pair` on
    /// `Url::query_pairs_mut`; the new serialization is read with `as_str`,
    /// one for one. A URL is fully given by its serialization, so the result
    /// is named by `url_with_query_pair` over the old serialization. For a URL
    /// without a fragment, the contract also states what `query_pairs_mut`
    /// and `form_urlencoded::append_pair` show: `name=value`, form-urlencoded
    /// from UTF-8, is appended after a `?` when there is no query yet, and
    /// after a `&` when the query (after the URL's only `?`) is not empty.
    #[verifier::external_body]
    fn append_query_pair(&mut self, name: &str, value: &str)
        ensures
            final(self)@ == url_with_query_pair(old(self)@, name@, value@),
            lacks(old(self)@, '#') && lacks(old(self)@, '?') ==> final(self)@ == old(self)@ + seq!['?'] + query_pair(name@, value@),
            lacks(old(self)@, '#') && one_inner_question_mark(old(self)@) ==> final(self)@ == old(self)@ + seq!['&'] + query_pair(name@, value@),
    {
        self.url.query_pairs_mut().append_pair(name, value);
        self.text = self.url.as_str().to_string();
    }

    /// Appends `name=value` to the query, form-urlencoded.
    pub fn append_pair(&mut self, name: &str, value: &str)
        ensures
            final(self)@ == url_with_query_pair(old(self)@, name@, value@),
            lacks(old(self)@, '#') && lacks(old(self)@, '?') ==> final(self)@ == old(self)@ + seq!['?'] + query_pair(name@, value@),
            lacks(old(self)@, '#') && one_inner_question_mark(old(self)@) ==> final(self)@ == old(self)@ + seq!['&'] + query_pair(name@, value@),
    {
        self.append_query_pair(name, value);
    }

    /// The serialization.
    pub fn as_str(&self) -> (r: &str)
        ensures
            r@ == self@,
    {
        self.text.as_str()
    }

    /// The serialization, owned.
    pub fn into_string(self) -> (r: String)
        ensures
            r@ == self@,
    {
        self.text
    }
}

} // verus!
