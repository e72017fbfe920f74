//! Storage for key material.

use crate::crypto::zeroizing_bytes;
use crate::crypto::zeroizing_bytes_get;
use crate::crypto::zeroizing_bytes_new;
use crate::crypto::zeroizing_text;
use crate::crypto::zeroizing_text_get;
use crate::crypto::zeroizing_text_new;
use crate::crypto::ZeroizingBytes;
use crate::crypto::ZeroizingText;
use crate::text::append_decimal;
use crate::text::append_text;
use crate::text::copy_text;
use crate::text::decimal_of;
use vstd::prelude::*;

verus! {

/// Secret byte storage for session keys and derived authentication material.
///
/// Contents are zeroized on drop and deliberately left out of the text form.
pub struct SecretBytes {
    inner: ZeroizingBytes,
}

impl View for SecretBytes {
    type V = Seq<u8>;

    closed spec fn view(&self) -> Seq<u8> {
        zeroizing_bytes(self.inner)
    }
}

/// The text form of a secret of `len` bytes: the contents have no part in it.
pub open spec fn redacted_secret(len: nat) -> Seq<char> {
    "SecretBytes { len: "@ + decimal_of(len) + ", contents: \"<redacted>\" }"@
}

impl SecretBytes {
    /// Takes bytes into secret storage.
    pub fn new(bytes: Vec<u8>) -> (r: Self)
        ensures
            r@ == bytes@,
    {
        SecretBytes { inner: zeroizing_bytes_new(bytes) }
    }

    /// The secret bytes.
    pub fn expose(&self) -> (r: &[u8])
        ensures
            r@ == self@,
    {
        zeroizing_bytes_get(&self.inner)
    }

    /// How many bytes are stored.
    pub fn len(&self) -> (r: usize)
        ensures
            r == self@.len(),
    {
        self.expose().len()
    }

    /// Whether no byte is stored.
    pub fn is_empty(&self) -> (r: bool)
        ensures
            r == (self@.len() == 0),
    {
        self.len() == 0
    }

    /// A text form that shows the length and not the contents.
    pub fn redacted_text(&self) -> (r: String)
        ensures
            r@ == redacted_secret(self@.len()),
    {
        let mut out = copy_text("SecretBytes { len: ");
        append_decimal(&mut out, self.len() as u64);
        append_text(&mut out, ", contents: \"<redacted>\" }");
        out
    }
}

/// Secret text storage for passwords. Contents are zeroized on drop.
pub struct SecretText {
    inner: ZeroizingText,
}

impl View for SecretText {
    type V = Seq<char>;

    closed spec fn view(&self) -> Seq<char> {
        zeroizing_text(self.inner)
    }
}

impl SecretText {
    /// Takes a text into secret storage.
    pub fn new(text: String) -> (r: Self)
        ensures
            r@ == text@,
    {
        SecretText { inner: zeroizing_text_new(text) }
    }

    /// The secret text.
    pub fn expose(&self) -> (r: &str)
        ensures
            r@ == self@,
    {
        zeroizing_text_get(&self.inner)
    }
}

} // verus!
