use vstd::prelude::*;
use vstd::string::*;
use vstd::utf8::*;

verus! {

/// What the `base64` crate's standard-alphabet decoder makes of the given bytes:
/// the decoded bytes, or `None` where it reports an error.
pub uninterp spec fn base64_decoded(text: Seq<u8>) -> Option<Seq<u8>>;

/// What the `base64` crate's standard-alphabet, padded encoder makes of the given bytes.
pub uninterp spec fn base64_encoded(bytes: Seq<u8>) -> Seq<char>;

#[verifier::external_type_specification]
#[verifier::external_body]
pub struct ExDecodeError(base64::DecodeError);

/// Relies on `base64::decode` (standard alphabet; padding may be left out). It
/// panics only where the input length plus 8 overflows.
#[verifier::external_body]
fn decode_base64(text: &str) -> (r: Result<Vec<u8>, base64::DecodeError>)
    requires
        text.spec_bytes().len() + 8 <= usize::MAX,
    ensures
        r matches Ok(v) ==> base64_decoded(text.spec_bytes()) == Some(v@),
        r is Err ==> base64_decoded(text.spec_bytes()) is None,
{
    base64::decode(text)
}

/// Relies on `base64::encode` of the text's UTF-8 bytes (standard alphabet, padded).
/// It panics only where the length of the output overflows a `usize`; a character
/// takes at most four bytes.
#[verifier::external_body]
pub(crate) fn encode_base64(text: &str) -> (r: String)
    requires
        text@.len() <= usize::MAX / 8,
    ensures
        r@ == base64_encoded(text.spec_bytes()),
{
    base64::encode(text)
}

/// What `String::from_utf8_lossy` makes of the given bytes: their text, with each
/// ill-formed sequence replaced by U+FFFD.
pub uninterp spec fn utf8_lossy(bytes: Seq<u8>) -> Seq<char>;

/// Relies on `String::from_utf8_lossy`: well-formed UTF-8 keeps the characters it
/// encodes, and the result depends on the bytes alone.
#[verifier::external_body]
fn lossy_text(bytes: &[u8]) -> (r: String)
    ensures
        r@ == utf8_lossy(bytes@),
        valid_utf8(bytes@) ==> r@ == decode_utf8(bytes@),
{
    String::from_utf8_lossy(bytes).into_owned()
}

/// A credential that a request presented: the decoded text of its `x-api-key` header.
#[derive(Debug)]
pub struct ApiKey(pub String);

/// Why a request's credential was refused.
#[derive(Debug, PartialEq, Eq, Structural, Clone, Copy)]
pub enum ApiKeyError {
    /// The request has no `x-api-key` header.
    MissingKey,
    /// The header is there, but its value is not well-formed base64.
    InvalidKey,
}

/// The status code with which every credential failure answers.
pub const UNAUTHORIZED: u16 = 401;

/// The result of a request guard: a value, a refusal with a status code and an
/// error, or `Forward` where the guard does not apply and the next route may.
#[derive(Debug)]
pub enum Outcome<T, E> {
    Success(T),
    Forward,
    Failure(u16, E),
}

/// The credential that the header value `header` carries, as text: the decoded
/// bytes, read as UTF-8 with ill-formed sequences replaced; `None` where the value
/// does not decode.
pub open spec fn credential_of(header: Seq<u8>) -> Option<Seq<char>> {
    match base64_decoded(header) {
        Some(b) => Some(utf8_lossy(b)),
        None => None,
    }
}

impl ApiKey {
    /// Checks the value of a request's `x-api-key` header, `None` where there is none.
    /// A value that decodes is accepted as it is: no key is compared with a secret.
    pub fn from_header(header: Option<&str>) -> (r: Result<ApiKey, ApiKeyError>)
        requires
            header matches Some(h) ==> h.spec_bytes().len() <= isize::MAX,
        ensures
            header is None ==> r == Err::<ApiKey, ApiKeyError>(ApiKeyError::MissingKey),
            header matches Some(h) ==> match credential_of(h.spec_bytes()) {
                Some(c) => r matches Ok(k) && k.0@ == c,
                None => r == Err::<ApiKey, ApiKeyError>(ApiKeyError::InvalidKey),
            },
    {
        match header {
            None => Err(ApiKeyError::MissingKey),
            Some(h) => {
                match decode_base64(h) {
                    Ok(bytes) => Ok(ApiKey(lossy_text(bytes.as_slice()))),
                    Err(_) => Err(ApiKeyError::InvalidKey),
                }
            },
        }
    }
}

} // verus!
