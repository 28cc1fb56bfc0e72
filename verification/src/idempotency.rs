//! Idempotency keys and the response captured for a finished submission.

use vstd::prelude::*;
use vstd::utf8::encode_utf8;

verus! {

/// Keys must be shorter than this many bytes.
pub const MAX_KEY_BYTES: usize = 50;

/// Whether `key` is accepted as an idempotency key: not empty, and shorter
/// than `MAX_KEY_BYTES` bytes in UTF-8.
pub open spec fn valid_key(key: Seq<char>) -> bool {
    key.len() > 0 && encode_utf8(key).len() < MAX_KEY_BYTES
}

/// Why a string was refused as an idempotency key.
#[derive(Clone, Copy, Debug, PartialEq, Eq, Structural)]
pub enum KeyError {
    /// The key is the empty string.
    Empty,
    /// The key has `MAX_KEY_BYTES` bytes or more.
    TooLong,
}

impl KeyError {
    /// The text shown to the client for this refusal.
    pub fn message(&self) -> (text: String)
        ensures
            text@ == match *self {
                KeyError::Empty => "The idempotency key cannot be empty"@,
                KeyError::TooLong => "The idempotency key must be shorter than 50 characters"@,
            },
    {
        match self {
            KeyError::Empty => "The idempotency key cannot be empty".to_string(),
            KeyError::TooLong => "The idempotency key must be shorter than 50 characters".to_string(),
        }
    }
}

/// A caller-supplied token that scopes the deduplication of one submission.
#[derive(Debug)]
pub struct IdempotencyKey {
    text: String,
}

impl View for IdempotencyKey {
    type V = Seq<char>;

    closed spec fn view(&self) -> Seq<char> {
        self.text@
    }
}

impl IdempotencyKey {
    /// Every key that exists is a valid one.
    #[verifier::type_invariant]
    closed spec fn inv(&self) -> bool {
        valid_key(self.text@)
    }

    /// Accepts `text` as a key exactly when it is valid, and says otherwise
    /// which rule it breaks.
    pub fn parse(text: String) -> (r: Result<IdempotencyKey, KeyError>)
        ensures
            match r {
                Ok(key) => valid_key(text@) && key@ == text@,
                Err(KeyError::Empty) => text@.len() == 0,
                Err(KeyError::TooLong) => text@.len() > 0 && encode_utf8(text@).len()
                    >= MAX_KEY_BYTES,
            },
    {
        if text.as_str().is_empty() {
            Err(KeyError::Empty)
        } else if text.as_str().as_bytes().len() >= MAX_KEY_BYTES {
            Err(KeyError::TooLong)
        } else {
            Ok(IdempotencyKey { text })
        }
    }

    /// The key's text.
    pub fn as_str(&self) -> (text: &str)
        ensures
            text@ == self@,
            valid_key(self@),
    {
        proof {
            use_type_invariant(self);
        }
        self.text.as_str()
    }

    /// The key's text, as the string that holds it.
    pub fn text(&self) -> (text: &String)
        ensures
            text@ == self@,
            valid_key(self@),
    {
        proof {
            use_type_invariant(self);
        }
        &self.text
    }
}

} // verus!
