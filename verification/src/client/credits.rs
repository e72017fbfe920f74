//! The credit window of a connection.

use crate::client::error::ClientError;
use vstd::prelude::*;

verus! {

/// How many credits a client works toward.
pub const DEFAULT_TARGET_CREDITS: u32 = 128;

/// How many bytes of payload one credit covers.
pub const CREDIT_UNIT_BYTES: usize = 65_536;

/// What a charge costs: a request without a charge still costs one credit.
pub open spec fn credit_cost(charge: u16) -> int {
    if charge == 0 {
        1
    } else {
        charge as int
    }
}

/// Tracks the number of SMB credits currently available on one transport connection.
#[derive(Debug, Clone, Copy, PartialEq, Eq, Structural)]
pub struct CreditManager {
    pub available: u32,
    pub target: u32,
}

impl CreditManager {
    /// The window that a server opens.
    pub fn new(initial: u16) -> (r: Result<Self, ClientError>)
        ensures
            initial == 0 ==> r == Err::<Self, _>(
                ClientError::Protocol("server granted zero credits in NEGOTIATE response"),
            ),
            initial > 0 ==> r == Ok::<Self, ClientError>(
                CreditManager { available: initial as u32, target: DEFAULT_TARGET_CREDITS },
            ),
    {
        if initial == 0 {
            return Err(ClientError::Protocol("server granted zero credits in NEGOTIATE response"));
        }
        Ok(CreditManager { available: initial as u32, target: DEFAULT_TARGET_CREDITS })
    }

    /// How many credits are available.
    pub fn available(&self) -> (r: u32)
        ensures
            r == self.available,
    {
        self.available
    }

    /// Whether a charge can be paid.
    pub open spec fn can_reserve(self, charge: u16) -> bool {
        credit_cost(charge) <= self.available
    }

    /// The window after a charge is paid.
    pub open spec fn reserved(self, charge: u16) -> CreditManager {
        CreditManager { available: (self.available - credit_cost(charge)) as u32, ..self }
    }

    /// Pays a charge.
    pub fn reserve(&mut self, charge: u16) -> (r: Result<(), ClientError>)
        ensures
            old(self).can_reserve(charge) ==> r is Ok && *final(self) == old(self).reserved(charge),
            !old(self).can_reserve(charge) ==> *final(self) == *old(self) && r == Err::<(), _>(
                ClientError::Protocol(
                    "SMB request requires more credits than are currently available",
                ),
            ),
    {
        let cost: u32 = if charge == 0 {
            1
        } else {
            charge as u32
        };
        if cost > self.available {
            return Err(
                ClientError::Protocol(
                    "SMB request requires more credits than are currently available",
                ),
            );
        }
        self.available = self.available - cost;
        Ok(())
    }

    /// Whether the window can take a grant.
    pub open spec fn can_grant(self, credits: u16) -> bool {
        self.available + credits <= u32::MAX
    }

    /// The window after a grant.
    pub open spec fn granted(self, credits: u16) -> CreditManager {
        CreditManager { available: (self.available + credits) as u32, ..self }
    }

    /// Adds a grant of the server.
    pub fn grant(&mut self, credits: u16) -> (r: Result<(), ClientError>)
        ensures
            old(self).can_grant(credits) ==> r is Ok && *final(self) == old(self).granted(credits),
            !old(self).can_grant(credits) ==> *final(self) == *old(self) && r == Err::<(), _>(
                ClientError::Protocol("SMB credit count overflow"),
            ),
    {
        match self.available.checked_add(credits as u32) {
            Some(available) => {
                self.available = available;
                Ok(())
            },
            None => Err(ClientError::Protocol("SMB credit count overflow")),
        }
    }

    /// How many credits to ask for: the largest of one, the caller's minimum and what is missing
    /// to the target.
    pub open spec fn hint(self, minimum: u16) -> u16 {
        let missing = if self.available >= self.target {
            0
        } else if self.target - self.available > u16::MAX {
            u16::MAX as int
        } else {
            self.target - self.available
        };
        if missing <= minimum && minimum >= 1 {
            minimum
        } else if missing >= 1 {
            missing as u16
        } else {
            1
        }
    }

    /// Returns a CreditRequest that preserves the caller's minimum while asking the server to grow
    /// the connection toward the 128-credit window.
    pub fn request_hint(&self, minimum: u16) -> (r: u16)
        ensures
            r == self.hint(minimum),
            r >= 1,
            r >= minimum,
    {
        let missing: u32 = if self.available >= self.target {
            0
        } else {
            self.target - self.available
        };
        let missing: u16 = if missing > u16::MAX as u32 {
            u16::MAX
        } else {
            missing as u16
        };
        if missing <= minimum && minimum >= 1 {
            minimum
        } else if missing >= 1 {
            missing
        } else {
            1
        }
    }

    /// Maximum payload that can currently be covered by consecutive 64 KiB credit units.
    pub fn max_multi_credit_payload(&self) -> (r: usize)
        ensures
            r == if self.available == 0 {
                65_536
            } else if self.available * 65_536 > usize::MAX {
                usize::MAX as int
            } else {
                self.available * 65_536
            },
    {
        let units: u64 = if self.available == 0 {
            1
        } else {
            self.available as u64
        };
        let bytes: u64 = units * 65_536;
        if bytes > usize::MAX as u64 {
            usize::MAX
        } else {
            bytes as usize
        }
    }
}

/// A grant of what was paid restores the window.
pub proof fn law_reserve_then_grant(credits: CreditManager, charge: u16)
    requires
        credits.can_reserve(charge),
    ensures
        charge > 0 ==> credits.reserved(charge).can_grant(charge) && credits.reserved(
            charge,
        ).granted(charge) == credits,
        charge == 0 ==> credits.reserved(charge).can_grant(1) && credits.reserved(charge).granted(
            1,
        ) == credits,
{
}

} // verus!
