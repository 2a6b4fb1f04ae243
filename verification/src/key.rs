//! Validated idempotency keys.
//!
//! A key is an opaque client-supplied token that identifies one logical
//! "publish" intent, scoped to one user. It must be between 1 and 49 bytes
//! long; no normalization is applied, so two keys differing only in case are
//! distinct.

use vstd::prelude::*;
use vstd::utf8::encode_utf8;

verus! {

/// Rejection of a malformed idempotency key: empty, or 50 bytes or longer.
#[derive(Clone, Copy, Debug, PartialEq, Eq, Structural)]
pub struct ValidationError;

/// A key is acceptable when its UTF-8 encoding is between 1 and 49 bytes.
pub open spec fn valid_key(k: Seq<char>) -> bool {
    1 <= encode_utf8(k).len() < 50
}

/// A validated idempotency key. Immutable once constructed; the underlying
/// string is exposed for storage lookups only.
pub struct IdempotencyKey {
    key: String,
}

impl View for IdempotencyKey {
    type V = Seq<char>;

    closed spec fn view(&self) -> Seq<char> {
        self.key@
    }
}

impl IdempotencyKey {
    /// Constructs a key from a caller-supplied string, rejecting the empty
    /// string and any string of 50 bytes or more.
    pub fn try_from(s: String) -> (r: Result<IdempotencyKey, ValidationError>)
        ensures
            match r {
                Ok(k) => valid_key(s@) && k@ == s@,
                Err(_) => !valid_key(s@),
            },
    {
        let n: usize = s.as_str().as_bytes().len();
        if n == 0 || n >= 50 {
            Err(ValidationError)
        } else {
            Ok(IdempotencyKey { key: s })
        }
    }

    /// The underlying string, for storage keys.
    pub fn as_ref(&self) -> (r: &String)
        ensures
            r@ == self@,
    {
        &self.key
    }

    /// Consumes the key, yielding the underlying string.
    pub fn into_string(self) -> (r: String)
        ensures
            r@ == self@,
    {
        self.key
    }
}

} // verus!
