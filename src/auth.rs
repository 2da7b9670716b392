use base64::Engine;
use vstd::prelude::*;
use vstd::string::StringExecFns;

verus! {

pub const COLON: u8 = 0x3a;

/// What base64's standard engine decodes `s` to, if it accepts it.
pub uninterp spec fn base64_standard_decoding(s: Seq<char>) -> Option<Seq<u8>>;

/// The text that the bytes `b` encode in UTF-8, if they are valid UTF-8.
pub uninterp spec fn utf8_decoding(b: Seq<u8>) -> Option<Seq<char>>;

/// Relies on `base64::engine::general_purpose::STANDARD.decode` (standard
/// alphabet, canonical padding required): the bytes it returns depend on the
/// input alone.
#[verifier::external_body]
fn decode_base64(encoded: &str) -> (r: Option<Vec<u8>>)
    ensures
        r is None <==> base64_standard_decoding(encoded@) is None,
        r is Some ==> base64_standard_decoding(encoded@) == Some(r->0@),
{
    base64::engine::general_purpose::STANDARD.decode(encoded).ok()
}

/// Relies on `String::from_utf8`: it accepts exactly the valid UTF-8 byte
/// strings, and the text depends on the bytes alone.
#[verifier::external_body]
fn utf8_text(bytes: Vec<u8>) -> (r: Option<String>)
    ensures
        r is None <==> utf8_decoding(bytes@) is None,
        r is Some ==> utf8_decoding(bytes@) == Some(r->0@),
{
    String::from_utf8(bytes).ok()
}

/// The bytes without one trailing colon: a colon at the very end ends the
/// last field rather than starting an empty one.
pub open spec fn without_terminator(b: Seq<u8>) -> Seq<u8> {
    if b.len() > 0 && b.last() == COLON {
        b.drop_last()
    } else {
        b
    }
}

/// `i` is the position of the only colon in `t`.
pub open spec fn sole_colon_at(t: Seq<u8>, i: int) -> bool {
    &&& 0 <= i < t.len()
    &&& t[i] == COLON
    &&& forall|k: int| 0 <= k < t.len() && k != i ==> t[k] != COLON
}

/// The two colon-separated fields of `b` (a trailing colon ends the last
/// field), or `None` where there are not exactly two.
pub open spec fn credential_fields(b: Seq<u8>) -> Option<(Seq<u8>, Seq<u8>)> {
    let t = without_terminator(b);
    if exists|i: int| sole_colon_at(t, i) {
        let i = choose|i: int| sole_colon_at(t, i);
        Some((t.take(i), t.skip(i + 1)))
    } else {
        None
    }
}

/// The user name and password that a basic authentication token carries.
pub open spec fn basic_credentials(encoded: Seq<char>) -> Option<(Seq<char>, Seq<char>)> {
    match base64_standard_decoding(encoded) {
        None => None,
        Some(b) => match credential_fields(b) {
            None => None,
            Some(fields) => match (utf8_decoding(fields.0), utf8_decoding(fields.1)) {
                (Some(user), Some(password)) => Some((user, password)),
                _ => None,
            },
        },
    }
}

pub open spec fn text_pair_view(r: Option<(String, String)>) -> Option<(Seq<char>, Seq<char>)> {
    match r {
        Some(p) => Some((p.0@, p.1@)),
        None => None,
    }
}

pub open spec fn byte_pair_view(r: Option<(Vec<u8>, Vec<u8>)>) -> Option<(Seq<u8>, Seq<u8>)> {
    match r {
        Some(p) => Some((p.0@, p.1@)),
        None => None,
    }
}

/// Splits decoded credentials into the user name and password fields.
pub fn split_credentials(decoded: &Vec<u8>) -> (r: Option<(Vec<u8>, Vec<u8>)>)
    ensures
        byte_pair_view(r) == credential_fields(decoded@),
{
    let ghost t = without_terminator(decoded@);
    let len: usize = if decoded.len() > 0 && decoded[decoded.len() - 1] == COLON {
        decoded.len() - 1
    } else {
        decoded.len()
    };
    assert(t =~= decoded@.take(len as int));
    let mut count: usize = 0;
    let mut first: usize = 0;
    let mut second: usize = 0;
    let mut i: usize = 0;
    while i < len
        invariant
            len <= decoded.len(),
            t == decoded@.take(len as int),
            i <= len,
            count <= 2,
            count == 0 ==> forall|k: int| 0 <= k < i ==> t[k] != COLON,
            count == 1 ==> first < i && t[first as int] == COLON && forall|k: int|
                0 <= k < i && k != first ==> t[k] != COLON,
            count == 2 ==> first < second < len && t[first as int] == COLON && t[second as int]
                == COLON,
        ensures
            count == 2 || i == len,
            count == 0 ==> forall|k: int| 0 <= k < i ==> t[k] != COLON,
            count == 1 ==> first < i && t[first as int] == COLON && forall|k: int|
                0 <= k < i && k != first ==> t[k] != COLON,
            count == 2 ==> first < second < len && t[first as int] == COLON && t[second as int]
                == COLON,
        decreases len - i + if count < 2 { 1int } else { 0int },
    {
        if count == 2 {
            break;
        }
        if decoded[i] == COLON {
            if count == 0 {
                first = i;
            } else {
                second = i;
            }
            count = count + 1;
        }
        i = i + 1;
    }
    if count == 1 {
        assert(sole_colon_at(t, first as int));
        assert forall|j: int| sole_colon_at(t, j) implies j == first by {}
        let user = copy_slice(decoded.as_slice(), 0, first);
        let password = copy_slice(decoded.as_slice(), first + 1, len);
        assert(user@ =~= t.take(first as int));
        assert(password@ =~= t.skip(first + 1));
        Some((user, password))
    } else {
        assert forall|j: int| !sole_colon_at(t, j) by {
            if count == 2 && sole_colon_at(t, j) {
                if j != first as int {
                    assert(t[first as int] == COLON);
                } else {
                    assert(t[second as int] == COLON);
                }
            }
        }
        None
    }
}

/// Decodes a basic authentication token (base64 of `user:password`) into
/// the user name and password.
pub fn basic_authentication_decode(encoded: &str) -> (r: Option<(String, String)>)
    ensures
        text_pair_view(r) == basic_credentials(encoded@),
{
    match decode_base64(encoded) {
        None => None,
        Some(decoded) => match split_credentials(&decoded) {
            None => None,
            Some((user, password)) => match (utf8_text(user), utf8_text(password)) {
                (Some(user), Some(password)) => Some((user, password)),
                _ => None,
            },
        },
    }
}

/// ASCII white space, as `char::is_whitespace` has it below 0x80.
pub open spec fn is_space(b: u8) -> bool {
    b == 0x20 || (0x09 <= b && b <= 0x0d)
}

/// The first position at or after `i` that holds no white space.
pub open spec fn skip_spaces(s: Seq<u8>, i: int) -> int
    decreases s.len() - i,
{
    if 0 <= i < s.len() && is_space(s[i]) {
        skip_spaces(s, i + 1)
    } else {
        i
    }
}

/// The first position at or after `i` that holds white space, or the end.
pub open spec fn word_end(s: Seq<u8>, i: int) -> int
    decreases s.len() - i,
{
    if 0 <= i < s.len() && !is_space(s[i]) {
        word_end(s, i + 1)
    } else {
        i
    }
}

/// The scheme name `Basic`.
pub open spec fn basic_scheme() -> Seq<u8> {
    seq![0x42u8, 0x61u8, 0x73u8, 0x69u8, 0x63u8]
}

/// The second white-space separated word of an authorization value whose
/// first word is `Basic`; `None` for any other value.
pub open spec fn basic_token_of(s: Seq<u8>) -> Option<Seq<u8>> {
    let a0 = skip_spaces(s, 0);
    let e0 = word_end(s, a0);
    let a1 = skip_spaces(s, e0);
    let e1 = word_end(s, a1);
    if s.subrange(a0, e0) == basic_scheme() && a1 < e1 {
        Some(s.subrange(a1, e1))
    } else {
        None
    }
}

fn skip_spaces_from(s: &[u8], from: usize) -> (r: usize)
    requires
        from <= s@.len(),
    ensures
        r == skip_spaces(s@, from as int),
        from <= r <= s@.len(),
{
    let mut i: usize = from;
    while i < s.len() && (s[i] == 0x20 || (0x09 <= s[i] && s[i] <= 0x0d))
        invariant
            from <= i <= s@.len(),
            skip_spaces(s@, i as int) == skip_spaces(s@, from as int),
        decreases s@.len() - i,
    {
        i = i + 1;
    }
    i
}

fn word_end_from(s: &[u8], from: usize) -> (r: usize)
    requires
        from <= s@.len(),
    ensures
        r == word_end(s@, from as int),
        from <= r <= s@.len(),
{
    let mut i: usize = from;
    while i < s.len() && !(s[i] == 0x20 || (0x09 <= s[i] && s[i] <= 0x0d))
        invariant
            from <= i <= s@.len(),
            word_end(s@, i as int) == word_end(s@, from as int),
        decreases s@.len() - i,
    {
        i = i + 1;
    }
    i
}

/// The bytes of `s` from `start` up to `end`, as a vector of their own.
pub(crate) fn copy_slice(s: &[u8], start: usize, end: usize) -> (r: Vec<u8>)
    requires
        start <= end <= s@.len(),
    ensures
        r@ == s@.subrange(start as int, end as int),
{
    let mut r: Vec<u8> = Vec::new();
    let mut i: usize = start;
    while i < end
        invariant
            start <= i <= end <= s@.len(),
            r@ == s@.subrange(start as int, i as int),
        decreases end - i,
    {
        r.push(s[i]);
        i = i + 1;
        assert(r@ =~= s@.subrange(start as int, i as int));
    }
    r
}

/// The credentials token of an `Authorization` header value that uses the
/// basic scheme: the word after `Basic`.
pub fn basic_authorization_token(value: &[u8]) -> (r: Option<Vec<u8>>)
    ensures
        r is None <==> basic_token_of(value@) is None,
        r is Some ==> basic_token_of(value@) == Some(r->0@),
{
    let a0 = skip_spaces_from(value, 0);
    let e0 = word_end_from(value, a0);
    let a1 = skip_spaces_from(value, e0);
    let e1 = word_end_from(value, a1);
    let scheme = copy_slice(value, a0, e0);
    let is_basic = scheme.len() == 5 && scheme[0] == 0x42 && scheme[1] == 0x61 && scheme[2] == 0x73
        && scheme[3] == 0x69 && scheme[4] == 0x63;
    assert(is_basic == (scheme@ == basic_scheme())) by {
        if is_basic {
            assert(scheme@ =~= basic_scheme());
        }
    }
    if is_basic && a1 < e1 {
        Some(copy_slice(value, a1, e1))
    } else {
        None
    }
}

/// The `WWW-Authenticate` value that asks for basic credentials in `realm`.
pub fn basic_challenge(realm: &str) -> (r: String)
    ensures
        r@ == "Basic realm=\""@ + realm@ + "\""@,
{
    let mut r = String::from_str("Basic realm=\"");
    r.append(realm);
    r.append("\"");
    r
}

} // verus!
