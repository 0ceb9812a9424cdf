//! Reading the credentials out of a Basic `Authorization` header value.
//!
//! The value must be text, begin with the scheme `Basic ` and carry a base64
//! payload that decodes to UTF-8 text of the form `username:password`. The
//! username ends at the first colon; the password is all that follows it.

use vstd::prelude::*;
use vstd::slice::slice_subrange;
use vstd::string::StringSliceAdditionalSpecFns;
use vstd::utf8::{
    char_u32_cast,
    decode_first_scalar,
    decode_utf8,
    decode_utf8_encode_utf8,
    decode_utf8_split,
    encode_scalar,
    encode_utf8,
    encode_utf8_decode_utf8,
    encode_utf8_valid_utf8,
    is_char_boundary,
    is_char_boundary_iff_not_is_continuation_byte,
    pop_first_scalar,
    valid_first_scalar,
    valid_utf8,
    valid_utf8_split,
};

verus! {

/// The byte that parts the username from the password.
pub const COLON: u8 = 58;

/// The horizontal tab.
pub const TAB: u8 = 9;

/// Length of the scheme prefix `Basic `.
pub const SCHEME_LEN: usize = 6;

/// The scheme prefix of a Basic authorization value: the bytes of `Basic `.
pub open spec fn basic_scheme() -> Seq<u8> {
    seq![66u8, 97u8, 115u8, 105u8, 99u8, 32u8]
}

/// A byte that may stand in a header value read as text: a printable ASCII
/// character, a space or a tab.
pub open spec fn is_visible_ascii(byte: u8) -> bool {
    (32 <= byte && byte < 127) || byte == TAB
}

/// Whether a header value can be read as text.
pub open spec fn is_header_text(value: Seq<u8>) -> bool {
    forall|i: int| 0 <= i < value.len() ==> is_visible_ascii(#[trigger] value[i])
}

/// The payload of a Basic authorization value: what follows the scheme, where
/// the value is text and begins with the scheme.
pub open spec fn basic_payload_spec(value: Seq<u8>) -> Option<Seq<u8>> {
    if is_header_text(value) && value.len() >= SCHEME_LEN && value.subrange(0, SCHEME_LEN as int)
        == basic_scheme() {
        Some(value.subrange(SCHEME_LEN as int, value.len() as int))
    } else {
        None
    }
}

/// Whether `at` is the place of the first colon in `bytes`.
pub open spec fn is_first_colon(bytes: Seq<u8>, at: int) -> bool {
    &&& 0 <= at < bytes.len()
    &&& bytes[at] == COLON
    &&& forall|j: int| 0 <= j < at ==> bytes[j] != COLON
}

/// Whether `bytes` holds a colon.
pub open spec fn has_colon(bytes: Seq<u8>) -> bool {
    exists|at: int| is_first_colon(bytes, at)
}

/// The place of the first colon in `bytes`, where there is one.
pub open spec fn first_colon(bytes: Seq<u8>) -> int {
    choose|at: int| is_first_colon(bytes, at)
}

/// The username and the password that a decoded payload holds: none where
/// the payload is not UTF-8 or has no colon, else the text before the first
/// colon and the text after it.
pub open spec fn credentials_in(decoded: Seq<u8>) -> Option<(Seq<char>, Seq<char>)> {
    if valid_utf8(decoded) && has_colon(decoded) {
        let at = first_colon(decoded);
        Some(
            (
                decode_utf8(decoded.subrange(0, at)),
                decode_utf8(decoded.subrange(at + 1, decoded.len() as int)),
            ),
        )
    } else {
        None
    }
}

/// What the `base64` crate decodes a payload to in the standard alphabet, or
/// nothing where it refuses the payload.
pub uninterp spec fn base64_decoded(encoded: Seq<u8>) -> Option<Seq<u8>>;

/// The credentials that a header value carries: the payload of the value,
/// decoded from base64 and split at the first colon.
pub open spec fn header_credentials(value: Seq<u8>) -> Option<(Seq<char>, Seq<char>)> {
    match basic_payload_spec(value) {
        Some(payload) => match base64_decoded(payload) {
            Some(decoded) => credentials_in(decoded),
            None => None,
        },
        None => None,
    }
}

/// A username and a password as a client presented them.
#[derive(Clone, Debug, PartialEq, Eq)]
pub struct Credentials {
    pub username: String,
    pub password: String,
}

impl View for Credentials {
    type V = (Seq<char>, Seq<char>);

    open spec fn view(&self) -> (Seq<char>, Seq<char>) {
        (self.username@, self.password@)
    }
}

/// The username and the password of credentials that may be missing.
pub open spec fn credentials_view(credentials: Option<Credentials>) -> Option<
    (Seq<char>, Seq<char>),
> {
    match credentials {
        Some(c) => Some(c@),
        None => None,
    }
}

/// Decodes `encoded` with `base64::decode`, which reads the standard
/// alphabet.
///
/// The decoding depends on the bytes alone, so its outcome is
/// `base64_decoded` of them; the kind of failure is dropped. No more is
/// claimed of it.
#[verifier::external_body]
fn decode_base64(encoded: &[u8]) -> (decoded: Option<Vec<u8>>)
    ensures
        match decoded {
            Some(bytes) => base64_decoded(encoded@) == Some(bytes@),
            None => base64_decoded(encoded@) is None,
        },
{
    match base64::decode(encoded) {
        Ok(bytes) => Some(bytes),
        Err(_) => None,
    }
}

/// Turns bytes into text with `String::from_utf8`, which succeeds exactly on
/// well-formed UTF-8 and then gives the characters that the bytes encode.
#[verifier::external_body]
fn text_from_utf8(bytes: Vec<u8>) -> (text: Option<String>)
    ensures
        match text {
            Some(t) => valid_utf8(bytes@) && t@ == decode_utf8(bytes@),
            None => !valid_utf8(bytes@),
        },
{
    match String::from_utf8(bytes) {
        Ok(text) => Some(text),
        Err(_) => None,
    }
}

/// At most one place is that of the first colon.
pub proof fn lemma_first_colon_unique(bytes: Seq<u8>, at: int)
    requires
        is_first_colon(bytes, at),
    ensures
        has_colon(bytes),
        first_colon(bytes) == at,
{
    let chosen = first_colon(bytes);
    assert(is_first_colon(bytes, chosen));
    if chosen < at {
        assert(bytes[chosen] != COLON);
    }
    if at < chosen {
        assert(bytes[at] != COLON);
    }
}

/// Bytes without a colon have no first colon.
pub proof fn lemma_no_colon(bytes: Seq<u8>)
    requires
        forall|j: int| 0 <= j < bytes.len() ==> bytes[j] != COLON,
    ensures
        !has_colon(bytes),
{
    if has_colon(bytes) {
        let at = first_colon(bytes);
        assert(is_first_colon(bytes, at));
        assert(bytes[at] != COLON);
    }
}

/// The single byte of a colon is the text of a colon.
proof fn lemma_single_colon()
    ensures
        valid_utf8(seq![COLON]),
        decode_utf8(seq![COLON]) == seq![':'],
{
    let s = seq![COLON];
    assert(s[0] == 58u8);
    assert(58u8 & 0x7F == 58u8) by (bit_vector);
    assert(valid_first_scalar(s));
    assert(pop_first_scalar(s) =~= Seq::<u8>::empty());
    assert(valid_utf8(pop_first_scalar(s)));
    assert(valid_utf8(s));
    assert(decode_first_scalar(s) == 58u32);
    assert(58u32 as char == ':');
    assert(decode_utf8(pop_first_scalar(s)) =~= Seq::<char>::empty());
    assert(decode_utf8(s) =~= seq![':']);
}

/// Text with a colon in it is encoded to bytes with a colon in them.
proof fn lemma_colon_is_encoded_as_colon(chars: Seq<char>, k: int)
    requires
        0 <= k < chars.len(),
        chars[k] == ':',
    ensures
        exists|j: int| 0 <= j < encode_utf8(chars).len() && encode_utf8(chars)[j] == COLON,
    decreases chars.len(),
{
    let head = encode_scalar(chars[0] as u32);
    let tail = encode_utf8(chars.drop_first());
    assert(encode_utf8(chars) == head + tail);
    if k == 0 {
        assert(':' as u32 == 58u32);
        assert((58u32 & 0x7F) as u8 == 58u8) by (bit_vector);
        assert(head =~= seq![COLON]);
        assert((head + tail)[0] == COLON);
    } else {
        assert(chars.drop_first()[k - 1] == ':');
        lemma_colon_is_encoded_as_colon(chars.drop_first(), k - 1);
        let j = choose|j: int| 0 <= j < tail.len() && tail[j] == COLON;
        assert((head + tail)[head.len() + j] == COLON);
    }
}

/// The credentials in a payload part its text at the first colon: the text
/// that the payload encodes is the username, a colon and the password, and
/// the username holds no colon.
pub proof fn lemma_credentials_part_the_text(decoded: Seq<u8>)
    requires
        credentials_in(decoded) is Some,
    ensures
        ({
            let parts = credentials_in(decoded)->0;
            &&& valid_utf8(decoded)
            &&& decode_utf8(decoded) == parts.0 + seq![':'] + parts.1
            &&& !parts.0.contains(':')
        }),
{
    let at = first_colon(decoded);
    assert(is_first_colon(decoded, at));
    let head = decoded.subrange(0, at);
    let tail = decoded.subrange(at, decoded.len() as int);
    let rest = decoded.subrange(at + 1, decoded.len() as int);
    is_char_boundary_iff_not_is_continuation_byte(decoded, at);
    valid_utf8_split(decoded, at);
    decode_utf8_split(decoded, at);
    assert(tail[0] == COLON);
    assert(is_char_boundary(tail, 1)) by {
        reveal_with_fuel(is_char_boundary, 2);
    }
    valid_utf8_split(tail, 1);
    decode_utf8_split(tail, 1);
    assert(tail.subrange(0, 1) =~= seq![COLON]);
    assert(tail.subrange(1, tail.len() as int) =~= rest);
    lemma_single_colon();
    assert(decode_utf8(decoded) =~= decode_utf8(head) + seq![':'] + decode_utf8(rest));
    let username = decode_utf8(head);
    if username.contains(':') {
        let k = choose|k: int| 0 <= k < username.len() && username[k] == ':';
        lemma_colon_is_encoded_as_colon(username, k);
        decode_utf8_encode_utf8(head);
        let j = choose|j: int| 0 <= j < head.len() && head[j] == COLON;
        assert(decoded[j] == COLON);
    }
}

/// The encoding of two texts in a row is the two encodings in a row.
proof fn lemma_encode_in_a_row(left: Seq<char>, right: Seq<char>)
    ensures
        encode_utf8(left + right) == encode_utf8(left) + encode_utf8(right),
    decreases left.len(),
{
    if left.len() == 0 {
        assert(left + right =~= right);
        assert(encode_utf8(left) + encode_utf8(right) =~= encode_utf8(right));
    } else {
        assert((left + right).drop_first() =~= left.drop_first() + right);
        assert((left + right)[0] == left[0]);
        lemma_encode_in_a_row(left.drop_first(), right);
        assert(encode_utf8(left + right) =~= encode_utf8(left) + encode_utf8(right));
    }
}

/// No byte of the encoding of a scalar is a colon, unless the scalar is one.
proof fn lemma_scalar_bytes(scalar: u32)
    ensures
        scalar != 58 ==> forall|j: int|
            0 <= j < encode_scalar(scalar).len() ==> encode_scalar(scalar)[j] != COLON,
{
    assert(scalar <= 0x7f && scalar != 58 ==> (scalar & 0x7F) as u8 != 58u8) by (bit_vector);
    assert((0xC0u8 | ((scalar >> 6) & 0x1F) as u8) != 58u8) by (bit_vector);
    assert((0xE0u8 | ((scalar >> 12) & 0x0F) as u8) != 58u8) by (bit_vector);
    assert((0xF0u8 | ((scalar >> 18) & 0x7) as u8) != 58u8) by (bit_vector);
    assert((0x80u8 | (scalar & 0x3F) as u8) != 58u8) by (bit_vector);
    assert((0x80u8 | ((scalar >> 6) & 0x3F) as u8) != 58u8) by (bit_vector);
    assert((0x80u8 | ((scalar >> 12) & 0x3F) as u8) != 58u8) by (bit_vector);
}

/// Text without a colon is encoded to bytes without a colon.
proof fn lemma_no_colon_is_encoded_without_colon(chars: Seq<char>)
    requires
        !chars.contains(':'),
    ensures
        forall|j: int| 0 <= j < encode_utf8(chars).len() ==> encode_utf8(chars)[j] != COLON,
    decreases chars.len(),
{
    if chars.len() > 0 {
        let scalar = chars[0] as u32;
        let head = encode_scalar(scalar);
        let tail = encode_utf8(chars.drop_first());
        assert(chars.contains(chars[0]));
        assert(scalar != 58) by {
            if scalar == 58 {
                char_u32_cast(chars[0], scalar);
                assert(58u32 as char == ':');
            }
        }
        lemma_scalar_bytes(scalar);
        assert(!chars.drop_first().contains(':')) by {
            if chars.drop_first().contains(':') {
                let k = choose|k: int|
                    0 <= k < chars.drop_first().len() && chars.drop_first()[k] == ':';
                assert(chars[k + 1] == ':');
            }
        }
        lemma_no_colon_is_encoded_without_colon(chars.drop_first());
        assert(encode_utf8(chars) == head + tail);
        assert forall|j: int| 0 <= j < (head + tail).len() implies (head + tail)[j] != COLON by {
            if j < head.len() {
                assert((head + tail)[j] == head[j]);
            } else {
                assert((head + tail)[j] == tail[j - head.len()]);
            }
        }
    }
}

/// A username without a colon, a colon and a password, encoded as UTF-8,
/// hold these credentials and no others.
pub proof fn lemma_encoded_credentials_are_read_back(username: Seq<char>, password: Seq<char>)
    requires
        !username.contains(':'),
    ensures
        credentials_in(encode_utf8(username + seq![':'] + password)) == Some((username, password)),
{
    let text = username + seq![':'] + password;
    let bytes = encode_utf8(text);
    let head = encode_utf8(username);
    let rest = encode_utf8(password);
    lemma_encode_in_a_row(username + seq![':'], password);
    lemma_encode_in_a_row(username, seq![':']);
    lemma_single_colon();
    assert(encode_utf8(seq![':']) == seq![COLON]) by {
        decode_utf8_encode_utf8(seq![COLON]);
    }
    assert(bytes == head + seq![COLON] + rest);
    lemma_no_colon_is_encoded_without_colon(username);
    let at = head.len() as int;
    assert(bytes[at] == COLON);
    assert forall|j: int| 0 <= j < at implies bytes[j] != COLON by {
        assert(bytes[j] == head[j]);
    }
    assert(is_first_colon(bytes, at));
    lemma_first_colon_unique(bytes, at);
    encode_utf8_valid_utf8(text);
    assert(bytes.subrange(0, at) =~= head);
    assert(bytes.subrange(at + 1, bytes.len() as int) =~= rest);
    encode_utf8_decode_utf8(username);
    encode_utf8_decode_utf8(password);
}

/// Whether a header value can be read as text.
pub fn is_text(value: &[u8]) -> (text: bool)
    ensures
        text == is_header_text(value@),
{
    let mut i: usize = 0;
    while i < value.len()
        invariant
            i <= value@.len(),
            forall|j: int| 0 <= j < i ==> is_visible_ascii(#[trigger] value@[j]),
        decreases value@.len() - i,
    {
        let byte: u8 = value[i];
        if !((32 <= byte && byte < 127) || byte == TAB) {
            assert(!is_visible_ascii(value@[i as int]));
            return false;
        }
        i = i + 1;
    }
    true
}

/// The payload of a Basic authorization value.
///
/// A value that is no text, or does not begin with `Basic `, has none. The
/// scheme is taken off once: what follows it is the payload, whatever it
/// holds.
pub fn basic_payload(value: &[u8]) -> (payload: Option<&[u8]>)
    ensures
        match payload {
            Some(p) => basic_payload_spec(value@) == Some(p@),
            None => basic_payload_spec(value@) is None,
        },
{
    if !is_text(value) {
        return None;
    }
    if value.len() < SCHEME_LEN {
        return None;
    }
    let begins: bool = value[0] == 66 && value[1] == 97 && value[2] == 115 && value[3] == 105
        && value[4] == 99 && value[5] == 32;
    proof {
        let head = value@.subrange(0, SCHEME_LEN as int);
        if begins {
            assert(head =~= basic_scheme());
        } else {
            assert(head[0] == value@[0]);
            assert(head[1] == value@[1]);
            assert(head[2] == value@[2]);
            assert(head[3] == value@[3]);
            assert(head[4] == value@[4]);
            assert(head[5] == value@[5]);
            assert(basic_scheme()[0] == 66u8);
            assert(basic_scheme()[1] == 97u8);
            assert(basic_scheme()[2] == 115u8);
            assert(basic_scheme()[3] == 105u8);
            assert(basic_scheme()[4] == 99u8);
            assert(basic_scheme()[5] == 32u8);
        }
    }
    if begins {
        Some(slice_subrange(value, SCHEME_LEN, value.len()))
    } else {
        None
    }
}

/// The place of the first colon in `bytes`, if there is one.
pub fn find_colon(bytes: &[u8]) -> (place: Option<usize>)
    ensures
        match place {
            Some(at) => is_first_colon(bytes@, at as int),
            None => !has_colon(bytes@),
        },
{
    let mut i: usize = 0;
    while i < bytes.len()
        invariant
            i <= bytes@.len(),
            forall|j: int| 0 <= j < i ==> bytes@[j] != COLON,
        decreases bytes@.len() - i,
    {
        if bytes[i] == COLON {
            return Some(i);
        }
        i = i + 1;
    }
    proof {
        lemma_no_colon(bytes@);
    }
    None
}

/// Splits a decoded payload into username and password.
///
/// A payload that is not UTF-8, or that has no colon, holds no credentials.
/// The username is the text before the first colon and may be empty, as may
/// the password; further colons belong to the password.
pub fn split_credentials(decoded: Vec<u8>) -> (credentials: Option<Credentials>)
    ensures
        credentials_view(credentials) == credentials_in(decoded@),
{
    let text: String = match text_from_utf8(decoded) {
        Some(text) => text,
        None => {
            return None;
        },
    };
    let whole: &str = text.as_str();
    let bytes: &[u8] = whole.as_bytes();
    proof {
        decode_utf8_encode_utf8(decoded@);
        assert(bytes@ == decoded@);
    }
    let at: usize = match find_colon(bytes) {
        Some(at) => at,
        None => {
            return None;
        },
    };
    proof {
        lemma_first_colon_unique(bytes@, at as int);
        is_char_boundary_iff_not_is_continuation_byte(bytes@, at as int);
        valid_utf8_split(bytes@, at as int);
    }
    let (username, rest) = whole.split_at(at);
    proof {
        let tail = bytes@.subrange(at as int, bytes@.len() as int);
        assert(rest.spec_bytes() == tail);
        assert(tail[0] == COLON);
        assert(is_char_boundary(tail, 1)) by {
            reveal_with_fuel(is_char_boundary, 2);
        }
    }
    let (_, password) = rest.split_at(1);
    proof {
        let tail = bytes@.subrange(at as int, bytes@.len() as int);
        assert(tail.subrange(1, tail.len() as int) =~= bytes@.subrange(
            at + 1,
            bytes@.len() as int,
        ));
        encode_utf8_decode_utf8(username@);
        encode_utf8_decode_utf8(password@);
    }
    Some(Credentials { username: username.to_owned(), password: password.to_owned() })
}

/// Reads the credentials out of the value of an `Authorization` header.
///
/// There are none where the value is no text, does not begin with `Basic `,
/// carries a payload that is not base64, or decodes to something that is not
/// UTF-8 text with a colon in it.
pub fn authorization_credentials(value: &[u8]) -> (credentials: Option<Credentials>)
    ensures
        credentials_view(credentials) == header_credentials(value@),
{
    let payload: &[u8] = match basic_payload(value) {
        Some(payload) => payload,
        None => {
            return None;
        },
    };
    match decode_base64(payload) {
        Some(decoded) => split_credentials(decoded),
        None => None,
    }
}

} // verus!
