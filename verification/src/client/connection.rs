//! The state of one transport connection.

use crate::client::credits::CreditManager;
use crate::client::error::ClientError;
use crate::client::message_id::MessageIdAllocator;
use crate::client::negotiate::NegotiatedParameters;
use crate::client::preauth::PreauthIntegrityHash;
use crate::wire::header::StatusField;
use vstd::prelude::*;

verus! {

/// One transport connection. The transport itself is carried along and never looked into.
pub struct Connection<T> {
    pub transport: T,
    pub message_ids: MessageIdAllocator,
    pub negotiated: Option<NegotiatedParameters>,
    pub preauth_hash: Option<PreauthIntegrityHash>,
    pub credits: Option<CreditManager>,
}

/// Why a response with this status is no success, if it is none. A response must have the response
/// form of the header.
pub open spec fn status_error(status: StatusField, wrong_form: &'static str) -> Option<ClientError> {
    match status {
        StatusField::Status(status) => if status == 0 {
            None
        } else {
            Some(ClientError::ServerStatus(status))
        },
        StatusField::ChannelSequence { .. } => Some(ClientError::Protocol(wrong_form)),
    }
}

/// Checks that a response reports success.
pub fn check_status(status: StatusField, wrong_form: &'static str) -> (r: Result<(), ClientError>)
    ensures
        match status_error(status, wrong_form) {
            Some(e) => r == Err::<(), ClientError>(e),
            None => r is Ok,
        },
{
    match status {
        StatusField::Status(status) => {
            if status == 0 {
                Ok(())
            } else {
                Err(ClientError::ServerStatus(status))
            }
        },
        StatusField::ChannelSequence { .. } => Err(ClientError::Protocol(wrong_form)),
    }
}

impl<T> Connection<T> {
    /// A connection that has not negotiated anything.
    pub fn new(transport: T) -> (r: Self)
        ensures
            r == (Connection {
                transport,
                message_ids: MessageIdAllocator { next: 0 },
                negotiated: None,
                preauth_hash: None,
                credits: None,
            }),
    {
        Connection {
            transport,
            message_ids: MessageIdAllocator::new(),
            negotiated: None,
            preauth_hash: None,
            credits: None,
        }
    }

    /// What was negotiated.
    pub fn negotiated(&self) -> (r: Option<&NegotiatedParameters>)
        ensures
            r is Some <==> self.negotiated is Some,
            r is Some ==> *r->0 == self.negotiated->0,
    {
        self.negotiated.as_ref()
    }

    /// The preauthentication hash, under SMB 3.1.1.
    pub fn preauth_hash(&self) -> (r: Option<&PreauthIntegrityHash>)
        ensures
            r is Some <==> self.preauth_hash is Some,
            r is Some ==> *r->0 == self.preauth_hash->0,
    {
        self.preauth_hash.as_ref()
    }

    /// The credits that are available.
    pub open spec fn credit_window(self) -> Option<u32> {
        match self.credits {
            Some(credits) => Some(credits.available),
            None => None,
        }
    }

    /// The credits that are available, once a window is open.
    pub fn available_credits(&self) -> (r: Option<u32>)
        ensures
            r == self.credit_window(),
    {
        match &self.credits {
            Some(credits) => Some(credits.available()),
            None => None,
        }
    }

    /// The charge of a request of at most one credit unit.
    pub open spec fn single_charge(self) -> u16 {
        if self.negotiated->0.multi_credit() {
            1
        } else {
            0
        }
    }

    /// The charge of a request of at most one credit unit.
    pub fn single_request_credit_charge(&self) -> (r: Result<u16, ClientError>)
        ensures
            self.negotiated is None ==> r == Err::<u16, _>(
                ClientError::Protocol("credit calculation requires negotiated parameters"),
            ),
            self.negotiated is Some ==> r == Ok::<u16, ClientError>(self.single_charge()),
    {
        match &self.negotiated {
            None => Err(
                ClientError::Protocol("credit calculation requires negotiated parameters"),
            ),
            Some(negotiated) => {
                if negotiated.supports_multi_credit() {
                    Ok(1)
                } else {
                    Ok(0)
                }
            },
        }
    }

    /// Why credits cannot be paid, if they cannot.
    pub open spec fn reserve_error(self, charge: u16) -> Option<ClientError> {
        match self.credits {
            None => Some(ClientError::Protocol("SMB credit window is not initialized")),
            Some(credits) => if !credits.can_reserve(charge) {
                Some(
                    ClientError::Protocol(
                        "SMB request requires more credits than are currently available",
                    ),
                )
            } else {
                None
            },
        }
    }

    /// Why a request cannot be charged, if it cannot.
    pub open spec fn charge_error(self, charge: u16) -> Option<ClientError> {
        match self.reserve_error(charge) {
            Some(e) => Some(e),
            None => if !self.message_ids.can_allocate(charge) {
                Some(ClientError::Protocol("SMB MessageId space exhausted"))
            } else {
                None
            },
        }
    }

    /// The connection after an attempt to charge a request: credits are paid before identifiers
    /// are allocated.
    pub open spec fn charged(self, charge: u16) -> Connection<T> {
        if self.reserve_error(charge) is Some {
            self
        } else {
            Connection {
                credits: Some(self.credits->0.reserved(charge)),
                message_ids: if self.message_ids.can_allocate(charge) {
                    self.message_ids.advanced(charge)
                } else {
                    self.message_ids
                },
                ..self
            }
        }
    }

    /// How many credits a charged request asks for.
    pub open spec fn credit_request(self, charge: u16, minimum: u16) -> u16 {
        self.credits->0.reserved(charge).hint(minimum)
    }

    /// Pays credits and returns how many to ask for.
    pub fn reserve_credits(&mut self, charge: u16, minimum: u16) -> (r: Result<u16, ClientError>)
        ensures
            match old(self).reserve_error(charge) {
                Some(e) => r == Err::<u16, ClientError>(e) && *final(self) == *old(self),
                None => r == Ok::<u16, ClientError>(old(self).credit_request(charge, minimum))
                    && *final(self) == (Connection {
                    credits: Some(old(self).credits->0.reserved(charge)),
                    ..*old(self)
                }),
            },
    {
        match self.credits {
            None => Err(ClientError::Protocol("SMB credit window is not initialized")),
            Some(credits) => {
                let mut credits = credits;
                credits.reserve(charge)?;
                self.credits = Some(credits);
                Ok(credits.request_hint(minimum))
            },
        }
    }

    /// Charges a request: pays its credits and allocates its identifiers. Returns its MessageId
    /// and how many credits it asks for.
    pub fn charge_request(&mut self, charge: u16, minimum: u16) -> (r: Result<
        (u64, u16),
        ClientError,
    >)
        ensures
            match old(self).charge_error(charge) {
                Some(e) => r == Err::<(u64, u16), ClientError>(e),
                None => r == Ok::<(u64, u16), ClientError>(
                    (old(self).message_ids.next, old(self).credit_request(charge, minimum)),
                ),
            },
            *final(self) == old(self).charged(charge),
    {
        let credit_request: u16 = self.reserve_credits(charge, minimum)?;
        let message_id: u64 = self.message_ids.allocate(charge)?;
        Ok((message_id, credit_request))
    }

    /// Why a grant cannot be taken, if it cannot.
    pub open spec fn grant_error(self, credits: u16) -> Option<ClientError> {
        match self.credits {
            None => Some(ClientError::Protocol("SMB credit window is not initialized")),
            Some(window) => if !window.can_grant(credits) {
                Some(ClientError::Protocol("SMB credit count overflow"))
            } else {
                None
            },
        }
    }

    /// The connection after an attempt to take a grant.
    pub open spec fn granted(self, credits: u16) -> Connection<T> {
        if self.grant_error(credits) is Some {
            self
        } else {
            Connection { credits: Some(self.credits->0.granted(credits)), ..self }
        }
    }

    /// Takes a grant of the server.
    pub fn grant_credits(&mut self, credits: u16) -> (r: Result<(), ClientError>)
        ensures
            match old(self).grant_error(credits) {
                Some(e) => r == Err::<(), ClientError>(e),
                None => r is Ok,
            },
            *final(self) == old(self).granted(credits),
    {
        match self.credits {
            None => Err(ClientError::Protocol("SMB credit window is not initialized")),
            Some(window) => {
                let mut window = window;
                window.grant(credits)?;
                self.credits = Some(window);
                Ok(())
            },
        }
    }

    /// Gives the transport back.
    pub fn into_transport(self) -> (r: T)
        ensures
            r == self.transport,
    {
        self.transport
    }
}

/// A charged request never pays more credits than were available, and its identifiers follow those
/// of every request before it.
pub proof fn law_charge_within_window<T>(connection: Connection<T>, charge: u16)
    requires
        connection.charge_error(charge) is None,
    ensures
        connection.charged(charge).credits->0.available < connection.credits->0.available,
        connection.charged(charge).message_ids.next > connection.message_ids.next,
        connection.charged(charge).transport == connection.transport,
        connection.charged(charge).negotiated == connection.negotiated,
{
}

} // verus!
