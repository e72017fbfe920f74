//! Negotiate contexts and create contexts: typed byte strings, each aligned to eight bytes.

use crate::bytes::le16;
use crate::bytes::le32;
use crate::bytes::put_bytes;
use crate::bytes::put_u16;
use crate::bytes::put_u32;
use crate::bytes::put_zeros;
use crate::bytes::zeros;
use crate::wire::constants::CONTEXT_PREAUTH_INTEGRITY_CAPABILITIES;
use crate::wire::constants::PREAUTH_HASH_SHA_512;
use crate::wire::error::WireError;
use vstd::prelude::*;

verus! {

/// How many bytes bring a length to a multiple of eight.
pub open spec fn pad8(n: int) -> nat {
    ((8 - n % 8) % 8) as nat
}

/// How many bytes bring a length to a multiple of eight.
pub fn padding(n: usize) -> (r: usize)
    ensures
        r == pad8(n as int),
        r < 8,
{
    (8 - n % 8) % 8
}

/// A context of a NEGOTIATE exchange.
#[derive(Debug, Clone, PartialEq, Eq)]
pub struct NegotiateContext {
    pub context_type: u16,
    pub data: Vec<u8>,
}

/// What a negotiate context says.
pub struct NegotiateContextView {
    pub context_type: u16,
    pub data: Seq<u8>,
}

impl View for NegotiateContext {
    type V = NegotiateContextView;

    open spec fn view(&self) -> NegotiateContextView {
        NegotiateContextView { context_type: self.context_type, data: self.data@ }
    }
}

/// What each of several negotiate contexts says.
pub open spec fn context_views(contexts: Seq<NegotiateContext>) -> Seq<NegotiateContextView> {
    contexts.map_values(|c: NegotiateContext| c@)
}

/// The preauthentication context that offers SHA-512 with a salt.
pub open spec fn preauth_sha512_view(salt: Seq<u8>) -> NegotiateContextView {
    NegotiateContextView {
        context_type: CONTEXT_PREAUTH_INTEGRITY_CAPABILITIES,
        data: le16(1) + le16(salt.len() as u16) + le16(PREAUTH_HASH_SHA_512) + salt,
    }
}

impl NegotiateContext {
    /// The preauthentication context that offers SHA-512 with a salt.
    pub fn preauth_sha512(salt: Vec<u8>) -> (r: Result<NegotiateContext, WireError>)
        ensures
            salt@.len() > u16::MAX ==> r == Err::<NegotiateContext, _>(
                WireError::TooLong("the preauthentication salt"),
            ),
            salt@.len() <= u16::MAX ==> r is Ok && r->Ok_0@ == preauth_sha512_view(salt@),
    {
        if salt.len() > u16::MAX as usize {
            return Err(WireError::TooLong("the preauthentication salt"));
        }
        let mut data: Vec<u8> = Vec::new();
        put_u16(&mut data, 1);
        assert(data@ =~= le16(1));
        put_u16(&mut data, salt.len() as u16);
        put_u16(&mut data, PREAUTH_HASH_SHA_512);
        put_bytes(&mut data, &salt);
        Ok(NegotiateContext { context_type: CONTEXT_PREAUTH_INTEGRITY_CAPABILITIES, data })
    }
}

/// The bytes of one negotiate context.
pub open spec fn negotiate_context_bytes(c: NegotiateContextView) -> Seq<u8> {
    le16(c.context_type) + le16(c.data.len() as u16) + le32(0) + c.data
}

/// The bytes of several negotiate contexts: each but the last is padded to eight bytes.
pub open spec fn negotiate_contexts_bytes(cs: Seq<NegotiateContextView>) -> Seq<u8>
    decreases cs.len(),
{
    if cs.len() == 0 {
        Seq::empty()
    } else if cs.len() == 1 {
        negotiate_context_bytes(cs[0])
    } else {
        let before = negotiate_contexts_bytes(cs.drop_last());
        before + zeros(pad8(before.len() as int)) + negotiate_context_bytes(cs.last())
    }
}

/// Whether every negotiate context fits its length field.
pub open spec fn contexts_fit(cs: Seq<NegotiateContextView>) -> bool {
    forall|i: int| 0 <= i < cs.len() ==> (#[trigger] cs[i]).data.len() <= u16::MAX
}

/// Appends several negotiate contexts to a packet whose length is a multiple of eight.
pub fn put_negotiate_contexts(out: &mut Vec<u8>, contexts: &Vec<NegotiateContext>) -> (r: Result<
    (),
    WireError,
>)
    requires
        old(out)@.len() % 8 == 0,
    ensures
        r is Ok <==> contexts_fit(context_views(contexts@)),
        r is Err ==> r->Err_0 == WireError::TooLong("a negotiate context"),
        r is Ok ==> final(out)@ == old(out)@ + negotiate_contexts_bytes(context_views(contexts@)),
{
    let ghost start = out@;
    let ghost views = context_views(contexts@);
    let mut i: usize = 0;
    assert(out@ =~= start + negotiate_contexts_bytes(views.take(0)));
    while i < contexts.len()
        invariant
            i <= contexts@.len(),
            views == context_views(contexts@),
            start.len() % 8 == 0,
            out@ == start + negotiate_contexts_bytes(views.take(i as int)),
            contexts_fit(views.take(i as int)),
        decreases contexts@.len() - i,
    {
        let context = &contexts[i];
        assert(views[i as int] == context@);
        if context.data.len() > u16::MAX as usize {
            assert(views[i as int].data.len() > u16::MAX);
            return Err(WireError::TooLong("a negotiate context"));
        }
        let ghost before = out@;
        let ghost done = views.take(i as int);
        if i > 0 {
            let pad: usize = padding(out.len());
            put_zeros(out, pad);
        }
        let ghost padded = out@;
        put_u16(out, context.context_type);
        put_u16(out, context.data.len() as u16);
        put_u32(out, 0);
        put_bytes(out, &context.data);
        proof {
            let next = views.take(i + 1);
            assert(next.drop_last() =~= done);
            assert(next.last() == context@);
            assert(out@ =~= padded + negotiate_context_bytes(context@));
            if i > 0 {
                let inner = negotiate_contexts_bytes(done);
                assert(before.len() == start.len() + inner.len());
                assert(pad8(before.len() as int) == pad8(inner.len() as int));
                assert(out@ =~= start + (inner + zeros(pad8(inner.len() as int))
                    + negotiate_context_bytes(context@)));
            } else {
                assert(next[0] == context@);
                assert(out@ =~= start + negotiate_context_bytes(context@));
            }
            assert(contexts_fit(next)) by {
                assert forall|j: int| 0 <= j < next.len() implies (#[trigger] next[j]).data.len()
                    <= u16::MAX by {
                    if j < i {
                        assert(done[j] == next[j]);
                    }
                }
            }
        }
        i = i + 1;
    }
    assert(views.take(i as int) =~= views);
    Ok(())
}

} // verus!
