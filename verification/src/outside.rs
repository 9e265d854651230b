//! Calls into other crates, each with the contract that the library relies on.
use crate::text::{decimal, Text};
use sha2::Digest;
use vstd::prelude::*;
use vstd::string::*;

verus! {

/// The SHA-256 state of `sha2`: what has been fed to it so far.
#[verifier::external_type_specification]
#[verifier::external_body]
pub struct ExSha256(sha2::Sha256);

/// The bytes that were fed to a SHA-256 state, in order.
pub uninterp spec fn sha256_input(state: sha2::Sha256) -> Seq<u8>;

/// The SHA-256 digest of a byte string.
pub uninterp spec fn sha256_digest(bytes: Seq<u8>) -> Seq<u8>;

/// `sha2::Sha256::new`: a state to which nothing has been fed.
#[verifier::external_body]
pub(crate) fn sha256_new() -> (r: sha2::Sha256)
    ensures
        sha256_input(r) == Seq::<u8>::empty(),
{
    sha2::Sha256::new()
}

/// `sha2::Sha256::update`: feeds `data` to the state after what it was fed before.
#[verifier::external_body]
pub(crate) fn sha256_update(state: &mut sha2::Sha256, data: &[u8])
    ensures
        sha256_input(*final(state)) == sha256_input(*old(state)) + data@,
{
    state.update(data);
}

/// `sha2::Sha256::finalize`: the 32 bytes of the digest of what was fed to the state.
#[verifier::external_body]
pub(crate) fn sha256_finalize(state: sha2::Sha256) -> (r: Vec<u8>)
    ensures
        r@ == sha256_digest(sha256_input(state)),
        r@.len() == 32,
{
    state.finalize().to_vec()
}

/// The lower-case hexadecimal digit of `d`.
pub open spec fn hex_digit(d: nat) -> char {
    if d < 10 {
        (('0' as u8) + d) as char
    } else {
        (('a' as u8) + (d - 10)) as char
    }
}

/// Each byte as two lower-case hexadecimal digits, the high half first.
pub open spec fn hex_text(bytes: Seq<u8>) -> Text {
    Seq::new(
        2 * bytes.len(),
        |i: int|
            hex_digit(
                if i % 2 == 0 {
                    bytes[i / 2] as nat / 16
                } else {
                    bytes[i / 2] as nat % 16
                },
            ),
    )
}

/// `hex::encode`: each byte as two lower-case hexadecimal digits.
#[verifier::external_body]
pub(crate) fn hex_encode(bytes: &Vec<u8>) -> (r: String)
    ensures
        r@ == hex_text(bytes@),
{
    hex::encode(bytes)
}

/// The characters that a URL component keeps as they are.
pub open spec fn url_safe(b: u8) -> bool {
    ('0' as u8) <= b <= ('9' as u8) || ('A' as u8) <= b <= ('Z' as u8) || ('a' as u8) <= b <= (
    'z' as u8) || b == '-' as u8 || b == '.' as u8 || b == '_' as u8 || b == '~' as u8
}

/// The upper-case hexadecimal digit of `d`.
pub open spec fn upper_hex_digit(d: nat) -> char {
    if d < 10 {
        (('0' as u8) + d) as char
    } else {
        (('A' as u8) + (d - 10)) as char
    }
}

/// `bytes` with every byte but the safe ones written as `%` and two upper-case digits.
pub open spec fn percent_encoded(bytes: Seq<u8>) -> Text
    decreases bytes.len(),
{
    if bytes.len() == 0 {
        Seq::empty()
    } else {
        let b = bytes.last();
        percent_encoded(bytes.drop_last()) + if url_safe(b) {
            seq![b as char]
        } else {
            seq!['%', upper_hex_digit(b as nat / 16), upper_hex_digit(b as nat % 16)]
        }
    }
}

/// `urlencoding::encode`: percent-encodes every byte of the UTF-8 text but letters, digits and
/// `-`, `.`, `_`, `~`.
#[verifier::external_body]
pub(crate) fn url_encode(text: &str) -> (r: String)
    ensures
        r@ == percent_encoded(text.spec_bytes()),
{
    urlencoding::encode(text).into_owned()
}

/// A UUID in its hyphenated lower-case form.
pub open spec fn uuid_shaped(s: Text) -> bool {
    &&& s.len() == 36
    &&& forall|i: int|
        0 <= i < 36 ==> if i == 8 || i == 13 || i == 18 || i == 23 {
            #[trigger] s[i] == '-'
        } else {
            exists|d: nat| d < 16 && s[i] == #[trigger] hex_digit(d)
        }
}

/// `uuid::Uuid::new_v4` in its hyphenated form. Which identifier it is rests on chance: only its
/// shape is claimed.
#[verifier::external_body]
pub(crate) fn new_uuid() -> (r: String)
    ensures
        uuid_shaped(r@),
{
    uuid::Uuid::new_v4().to_string()
}

/// The reason phrase that the `http` crate gives for a status code.
pub uninterp spec fn status_reason(code: u16) -> Text;

/// A status code as `reqwest` writes it: the number, a space and its reason phrase.
pub open spec fn status_line(code: u16) -> Text {
    decimal(code as nat) + " "@ + status_reason(code)
}

/// The codes that a reply can carry.
pub open spec fn valid_status(code: u16) -> bool {
    100 <= code <= 999
}

/// `reqwest::StatusCode::from_u16` and its text: the number, a space and the reason phrase.
#[verifier::external_body]
pub(crate) fn status_text(code: u16) -> (r: String)
    requires
        valid_status(code),
    ensures
        r@ == decimal(code as nat) + " "@ + status_reason(code),
{
    match reqwest::StatusCode::from_u16(code) {
        Ok(status) => status.to_string(),
        Err(error) => error.to_string(),
    }
}

/// The text of bytes that should be UTF-8, with replacements for what is not.
pub uninterp spec fn lossy_text(bytes: Seq<u8>) -> Text;

/// `String::from_utf8_lossy`: the text of valid UTF-8; of other bytes, whatever the standard
/// library puts in their place, which depends on the bytes alone.
#[verifier::external_body]
pub(crate) fn lossy_utf8(bytes: &Vec<u8>) -> (r: String)
    ensures
        r@ == lossy_text(bytes@),
        vstd::utf8::valid_utf8(bytes@) ==> r@ == vstd::utf8::decode_utf8(bytes@),
{
    String::from_utf8_lossy(bytes).into_owned()
}

}
