//! Test fixtures: a transport that plays a script.

use crate::bytes::copy_bytes;
use crate::client::error::ClientError;
use std::collections::VecDeque;
use vstd::prelude::*;

verus! {

/// Identifies a protocol fixture by a stable human-readable name.
#[derive(Clone, Debug, PartialEq, Eq)]
pub struct FixtureName(pub &'static str);

/// Deterministic message transport for protocol-state tests.
///
/// Each call to `receive_message` pops one pre-scripted SMB message. Every sent message is retained
/// byte-for-byte so tests can verify MessageIds, negotiate contexts, signing input, and preauth
/// hashing without opening a socket.
#[derive(Debug)]
pub struct ScriptedTransport {
    pub incoming: VecDeque<Vec<u8>>,
    pub sent: Vec<Vec<u8>>,
}

impl Default for ScriptedTransport {
    fn default() -> (r: Self)
        ensures
            r.incoming@.len() == 0,
            r.sent@.len() == 0,
    {
        ScriptedTransport { incoming: VecDeque::new(), sent: Vec::new() }
    }
}

impl ScriptedTransport {
    /// A transport that will receive these messages.
    pub fn new(incoming: Vec<Vec<u8>>) -> (r: Self)
        ensures
            r.incoming@ == incoming@,
            r.sent@.len() == 0,
    {
        let mut queue: VecDeque<Vec<u8>> = VecDeque::new();
        let ghost all = incoming@;
        let mut rest = incoming;
        let mut reversed: Vec<Vec<u8>> = Vec::new();
        while rest.len() > 0
            invariant
                rest@ + reversed@.reverse() == all,
            decreases rest@.len(),
        {
            let ghost before = rest@;
            let ghost taken = reversed@;
            match rest.pop() {
                Some(message) => {
                    reversed.push(message);
                    assert(rest@ + reversed@.reverse() =~= before + taken.reverse());
                },
                None => {},
            }
        }
        while reversed.len() > 0
            invariant
                queue@ + reversed@.reverse() == all,
            decreases reversed@.len(),
        {
            let ghost before = queue@;
            let ghost waiting = reversed@;
            match reversed.pop() {
                Some(message) => {
                    queue.push_back(message);
                    assert(queue@ + reversed@.reverse() =~= before + waiting.reverse());
                },
                None => {},
            }
        }
        assert(queue@ =~= all);
        ScriptedTransport { incoming: queue, sent: Vec::new() }
    }

    /// What was sent, in order.
    pub fn sent_messages(&self) -> (r: &[Vec<u8>])
        ensures
            r@ == self.sent@,
    {
        self.sent.as_slice()
    }

    /// How many messages are still to be received.
    pub fn remaining_messages(&self) -> (r: usize)
        ensures
            r == self.incoming@.len(),
    {
        self.incoming.len()
    }

    /// Keeps a message that is sent.
    pub fn send_message(&mut self, message: &[u8])
        ensures
            final(self).sent@.len() == old(self).sent@.len() + 1,
            final(self).sent@.drop_last() == old(self).sent@,
            final(self).sent@.last()@ == message@,
            final(self).incoming@ == old(self).incoming@,
    {
        self.sent.push(copy_bytes(message));
        assert(self.sent@.drop_last() =~= old(self).sent@);
    }

    /// Takes the next message of the script.
    pub fn receive_message(&mut self) -> (r: Result<Vec<u8>, ClientError>)
        ensures
            final(self).sent@ == old(self).sent@,
            if old(self).incoming@.len() == 0 {
                r == Err::<Vec<u8>, _>(
                    ClientError::Protocol("scripted transport has no queued response"),
                ) && final(self).incoming@ == old(self).incoming@
            } else {
                r == Ok::<Vec<u8>, ClientError>(old(self).incoming@[0]) && final(self).incoming@
                    == old(self).incoming@.drop_first()
            },
    {
        match self.incoming.pop_front() {
            Some(message) => {
                assert(self.incoming@ =~= old(self).incoming@.drop_first());
                Ok(message)
            },
            None => Err(ClientError::Protocol("scripted transport has no queued response")),
        }
    }
}

} // verus!
