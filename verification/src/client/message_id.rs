//! The sequence numbers of a connection.

use crate::client::credits::credit_cost;
use crate::client::error::ClientError;
use vstd::prelude::*;

verus! {

/// Allocates SMB MessageIds from one connection's sequence-number space.
///
/// Multi-credit requests consume `CreditCharge` sequence numbers. Requests whose charge field is
/// zero still consume one sequence number (for example the initial NEGOTIATE request).
#[derive(Debug, Clone, Copy, PartialEq, Eq, Structural)]
pub struct MessageIdAllocator {
    pub next: u64,
}

impl MessageIdAllocator {
    /// An allocator at the beginning of its space.
    pub fn new() -> (r: Self)
        ensures
            r.next == 0,
    {
        MessageIdAllocator { next: 0 }
    }

    /// Whether a charge still fits the space.
    pub open spec fn can_allocate(self, charge: u16) -> bool {
        self.next + credit_cost(charge) <= u64::MAX
    }

    /// The allocator after a charge.
    pub open spec fn advanced(self, charge: u16) -> MessageIdAllocator {
        MessageIdAllocator { next: (self.next + credit_cost(charge)) as u64 }
    }

    /// Allocates the identifiers of one request and returns the first.
    pub fn allocate(&mut self, credit_charge: u16) -> (r: Result<u64, ClientError>)
        ensures
            old(self).can_allocate(credit_charge) ==> r == Ok::<u64, ClientError>(old(self).next)
                && *final(self) == old(self).advanced(credit_charge),
            !old(self).can_allocate(credit_charge) ==> *final(self) == *old(self) && r == Err::<
                u64,
                _,
            >(ClientError::Protocol("SMB MessageId space exhausted")),
    {
        let width: u64 = if credit_charge == 0 {
            1
        } else {
            credit_charge as u64
        };
        let current: u64 = self.next;
        match current.checked_add(width) {
            Some(next) => {
                self.next = next;
                Ok(current)
            },
            None => Err(ClientError::Protocol("SMB MessageId space exhausted")),
        }
    }

    /// The identifier that comes next.
    pub fn peek(&self) -> (r: u64)
        ensures
            r == self.next,
    {
        self.next
    }
}

impl Default for MessageIdAllocator {
    fn default() -> (r: Self)
        ensures
            r.next == 0,
    {
        MessageIdAllocator::new()
    }
}

impl MessageIdAllocator {
    /// The allocator after several charges.
    pub open spec fn after_all(self, charges: Seq<u16>) -> MessageIdAllocator
        decreases charges.len(),
    {
        if charges.len() == 0 {
            self
        } else {
            self.after_all(charges.drop_last()).advanced(charges.last())
        }
    }

    /// The first identifier of the request at a place among several.
    pub open spec fn id_at(self, charges: Seq<u16>, i: int) -> u64 {
        self.after_all(charges.take(i)).next
    }

    /// Whether several charges, one after the other, fit the space.
    pub open spec fn can_allocate_all(self, charges: Seq<u16>) -> bool {
        forall|i: int|
            0 <= i < charges.len() ==> self.after_all(#[trigger] charges.take(i)).can_allocate(
                charges[i],
            )
    }
}

/// The identifiers of a request lie before those of every later request, however many lie between
/// them, and a request with a charge has as many as its charge.
pub proof fn law_message_ids_disjoint(
    ids: MessageIdAllocator,
    charges: Seq<u16>,
    first: int,
    second: int,
)
    requires
        ids.can_allocate_all(charges),
        0 <= first < second < charges.len(),
    ensures
        ids.id_at(charges, first) + credit_cost(charges[first]) <= ids.id_at(charges, second),
        ids.id_at(charges, first) < ids.id_at(charges, second),
        ids.id_at(charges, first) + credit_cost(charges[first]) == ids.id_at(charges, first + 1),
    decreases second,
{
    assert(ids.after_all(charges.take(first)).can_allocate(charges[first]));
    assert(charges.take(first + 1).drop_last() =~= charges.take(first));
    if second > first + 1 {
        let before = second - 1;
        law_message_ids_disjoint(ids, charges, first, before);
        assert(ids.after_all(charges.take(before)).can_allocate(charges[before]));
        assert(charges.take(second).drop_last() =~= charges.take(before));
    }
}

} // verus!
