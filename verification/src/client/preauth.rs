//! The preauthentication integrity hash of SMB 3.1.1.

use crate::bytes::copy_bytes;
use crate::bytes::put_bytes;
use crate::bytes::zeros;
use crate::crypto::sha512;
use crate::crypto::sha512_of;
use vstd::prelude::*;

verus! {

/// Rolling SMB 3.1.1 preauthentication integrity hash.
///
/// The hash begins as 64 zero bytes. Each exact SMB message updates the state as
/// `SHA512(previous_hash || message_bytes)`. Transport framing is deliberately excluded.
#[derive(Debug, Clone, Copy, PartialEq, Eq)]
pub struct PreauthIntegrityHash {
    pub value: [u8; 64],
}

impl View for PreauthIntegrityHash {
    type V = Seq<u8>;

    open spec fn view(&self) -> Seq<u8> {
        self.value@
    }
}

/// The hash after a message.
pub open spec fn preauth_next(hash: Seq<u8>, message: Seq<u8>) -> Seq<u8> {
    sha512_of(hash + message)
}

/// The hash after several messages, from the zero hash on.
pub open spec fn preauth_of(messages: Seq<Seq<u8>>) -> Seq<u8>
    decreases messages.len(),
{
    if messages.len() == 0 {
        zeros(64)
    } else {
        preauth_next(preauth_of(messages.drop_last()), messages.last())
    }
}

impl PreauthIntegrityHash {
    /// The hash before the first message.
    pub fn new() -> (r: Self)
        ensures
            r@ == zeros(64),
            r@ == preauth_of(Seq::empty()),
    {
        let value: [u8; 64] = [0u8; 64];
        assert(value@ =~= zeros(64));
        PreauthIntegrityHash { value }
    }

    /// Takes one message into the hash.
    pub fn update(&mut self, message: &[u8])
        ensures
            final(self)@ == preauth_next(old(self)@, message@),
    {
        let mut input = copy_bytes(&self.value);
        put_bytes(&mut input, message);
        self.value = sha512(&input);
    }

    /// The current hash.
    pub fn current(&self) -> (r: &[u8; 64])
        ensures
            r@ == self@,
    {
        &self.value
    }

    /// The hash as bytes.
    pub fn into_bytes(self) -> (r: [u8; 64])
        ensures
            r@ == self@,
    {
        self.value
    }
}

impl Default for PreauthIntegrityHash {
    fn default() -> (r: Self)
        ensures
            r@ == zeros(64),
    {
        PreauthIntegrityHash::new()
    }
}

} // verus!
