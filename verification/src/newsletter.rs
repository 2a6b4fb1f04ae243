//! The HTTP-basic-authentication publish endpoint: request body shape,
//! credential parsing and error responses.
//!
//! The `Authorization` header carries `Basic ` followed by the base64
//! encoding of `username:password`. Parsing peels those layers one by one
//! and reports exactly which layer was malformed.

use vstd::prelude::*;
use vstd::utf8::{decode_utf8, valid_utf8};

use base64::Engine;

use crate::response::{status_only, status_only_model, HttpResponseDescriptor, ResponseModel};

verus! {

/// The JSON body of a publish request on this endpoint.
pub struct BodyData {
    pub title: String,
    pub content: Content,
}

/// The newsletter content, in both shapes it is sent in.
pub struct Content {
    pub text: String,
    pub html: String,
}

/// Failure of the publish endpoint: bad credentials, or anything else.
pub enum PublishError {
    AuthError(String),
    UnexpectedError(String),
}

/// The challenge sent when authentication fails: 401 with the Basic
/// authentication scheme's realm.
pub open spec fn authenticate_challenge_model() -> ResponseModel {
    ResponseModel {
        status_code: 401,
        headers: seq![("WWW-Authenticate"@, "Basic realm=\"publish\""@)],
        body: Seq::empty(),
    }
}

impl PublishError {
    /// The response this failure is reported with: a challenge for a
    /// failed authentication, a bare 500 for everything else.
    pub fn error_response(&self) -> (r: HttpResponseDescriptor)
        ensures
            match self {
                PublishError::AuthError(_) => r@ == authenticate_challenge_model(),
                PublishError::UnexpectedError(_) => r@ == status_only_model(500),
            },
    {
        match self {
            PublishError::AuthError(_) => {
                let mut headers: Vec<(String, String)> = Vec::new();
                headers.push(
                    (String::from_str("WWW-Authenticate"), String::from_str(
                        "Basic realm=\"publish\"",
                    )),
                );
                let r = HttpResponseDescriptor { status_code: 401, headers, body: String::new() };
                proof {
                    assert(r@.headers =~= authenticate_challenge_model().headers);
                    assert(r@ =~= authenticate_challenge_model());
                }
                r
            },
            PublishError::UnexpectedError(_) => status_only(500),
        }
    }
}

/// Credentials presented by the publish request.
#[derive(Debug)]
pub struct Credentials {
    pub username: String,
    pub password: String,
}

/// Which layer of the `Authorization` header was malformed.
#[derive(Clone, Copy, Debug, PartialEq, Eq, Structural)]
pub enum BasicAuthError {
    /// No `Authorization` header was sent.
    MissingHeader,
    /// The authorization scheme is not `Basic`.
    NotBasicScheme,
    /// The credentials were not valid base64.
    InvalidBase64,
    /// The decoded credentials were not valid UTF-8.
    InvalidUtf8,
    /// The decoded credentials hold no `:`, so no password was provided.
    MissingPassword,
}

/// The standard-alphabet, padded base64 decoding of `s`: defined exactly
/// on well-formed input, and a function of the characters alone.
pub uninterp spec fn base64_standard_decoded(s: Seq<char>) -> Option<Seq<u8>>;

/// Relies on base64's `Engine::decode` with the `STANDARD` engine: it
/// decodes the standard alphabet with `=` padding, succeeding exactly on
/// well-formed input, as a function of the input characters alone.
#[verifier::external_body]
fn base64_decode(s: &str) -> (r: Option<Vec<u8>>)
    ensures
        match (r, base64_standard_decoded(s@)) {
            (Some(v), Some(m)) => v@ == m,
            (None, None) => true,
            _ => false,
        },
{
    base64::engine::general_purpose::STANDARD.decode(s).ok()
}

/// Relies on `String::from_utf8`: it succeeds exactly on valid UTF-8 and
/// yields its decoding.
#[verifier::external_body]
fn bytes_to_string(bytes: Vec<u8>) -> (r: Option<String>)
    ensures
        match r {
            Some(s) => valid_utf8(bytes@) && s@ == decode_utf8(bytes@),
            None => !valid_utf8(bytes@),
        },
{
    String::from_utf8(bytes).ok()
}

/// The position of the first `:` in `s` at or after `i`, or -1 if there is
/// none.
pub open spec fn first_colon_from(s: Seq<char>, i: int) -> int
    decreases s.len() - i,
{
    if i < 0 || i >= s.len() {
        -1
    } else if s[i] == ':' {
        i
    } else {
        first_colon_from(s, i + 1)
    }
}

/// What parsing the `Authorization` header must yield, layer by layer:
/// the header must be present, carry the `Basic ` scheme, decode as
/// base64, read as UTF-8, and split as `username:password` at the first
/// colon.
pub open spec fn basic_auth_decision(header: Option<Seq<char>>) -> Result<
    (Seq<char>, Seq<char>),
    BasicAuthError,
> {
    match header {
        Option::None => Result::Err(BasicAuthError::MissingHeader),
        Option::Some(h) => {
            if h.len() < 6 || h.subrange(0, 6) != "Basic "@ {
                Result::Err(BasicAuthError::NotBasicScheme)
            } else {
                match base64_standard_decoded(h.subrange(6, h.len() as int)) {
                    Option::None => Result::Err(BasicAuthError::InvalidBase64),
                    Option::Some(bytes) => {
                        if !valid_utf8(bytes) {
                            Result::Err(BasicAuthError::InvalidUtf8)
                        } else {
                            let creds = decode_utf8(bytes);
                            let c = first_colon_from(creds, 0);
                            if c < 0 {
                                Result::Err(BasicAuthError::MissingPassword)
                            } else {
                                Result::Ok(
                                    (creds.subrange(0, c), creds.subrange(
                                        c + 1,
                                        creds.len() as int,
                                    )),
                                )
                            }
                        }
                    },
                }
            }
        },
    }
}

/// The view of an optional header value.
pub open spec fn header_view(h: Option<&str>) -> Option<Seq<char>> {
    match h {
        Option::Some(s) => Option::Some(s@),
        Option::None => Option::None,
    }
}

/// Parses `Basic` credentials out of the request's `Authorization` header,
/// if one was sent.
pub fn basic_authentication(authorization: Option<&str>) -> (r: Result<Credentials, BasicAuthError>)
    ensures
        match (basic_auth_decision(header_view(authorization)), r) {
            (Result::Ok((u, p)), Ok(c)) => c.username@ == u && c.password@ == p,
            (Result::Err(e), Err(e2)) => e == e2,
            _ => false,
        },
{
    let header = match authorization {
        Some(h) => h,
        None => {
            return Err(BasicAuthError::MissingHeader);
        },
    };
    if !has_basic_prefix(header) {
        return Err(BasicAuthError::NotBasicScheme);
    }
    let n = header.unicode_len();
    let encoded = header.substring_char(6, n);
    let decoded_bytes = match base64_decode(encoded) {
        Some(v) => v,
        None => {
            return Err(BasicAuthError::InvalidBase64);
        },
    };
    let creds = match bytes_to_string(decoded_bytes) {
        Some(s) => s,
        None => {
            return Err(BasicAuthError::InvalidUtf8);
        },
    };
    let creds_str = creds.as_str();
    let m = creds_str.unicode_len();
    match find_colon(creds_str) {
        None => Err(BasicAuthError::MissingPassword),
        Some(c) => {
            let username = creds_str.substring_char(0, c).to_owned();
            let password = creds_str.substring_char(c + 1, m).to_owned();
            Ok(Credentials { username, password })
        },
    }
}

/// Whether the header value starts with the `Basic ` scheme tag.
fn has_basic_prefix(header: &str) -> (r: bool)
    ensures
        r == (header@.len() >= 6 && header@.subrange(0, 6) == "Basic "@),
{
    let n = header.unicode_len();
    proof {
        reveal_strlit("Basic ");
    }
    if n < 6 {
        return false;
    }
    let mut j: usize = 0;
    while j < 6
        invariant
            6 <= n == header@.len(),
            j <= 6,
            forall|k: int| 0 <= k < j ==> header@[k] == ("Basic "@)[k],
        decreases 6 - j,
    {
        proof {
            reveal_strlit("Basic ");
        }
        if header.get_char(j) != "Basic ".get_char(j) {
            proof {
                assert(header@.subrange(0, 6)[j as int] != ("Basic "@)[j as int]);
            }
            return false;
        }
        j = j + 1;
    }
    proof {
        assert(header@.subrange(0, 6) =~= "Basic "@);
    }
    true
}

/// The position of the first `:` in `s`, if any.
fn find_colon(s: &str) -> (r: Option<usize>)
    ensures
        match r {
            Some(c) => first_colon_from(s@, 0) == c && c < s@.len(),
            None => first_colon_from(s@, 0) == -1,
        },
{
    let m = s.unicode_len();
    let mut c: usize = 0;
    while c < m
        invariant
            m == s@.len(),
            c <= m,
            first_colon_from(s@, 0) == first_colon_from(s@, c as int),
        decreases m - c,
    {
        proof {
            reveal_strlit(":");
        }
        if s.get_char(c) == ':' {
            return Some(c);
        }
        c = c + 1;
    }
    None
}

} // verus!
