//! What a client offers in NEGOTIATE, and what it takes from the contexts of the answer.

use crate::bytes::u16_at;
use crate::bytes::u32_at;
use crate::bytes::u64_at;
use crate::bytes::zeros;
use crate::client::error::ClientError;
use crate::client::negotiate::algorithm_bytes;
use crate::client::negotiate::data_of_type;
use crate::client::negotiate::negotiate_finish_error;
use crate::client::negotiate::offered_request_of;
use crate::client::negotiate::preauth_algorithm_at;
use crate::client::negotiate::preauth_context_error;
use crate::client::negotiate::selected_algorithm_of;
use crate::client::negotiate::signing_capabilities_of;
use crate::client::negotiate::NegotiateConfig;
use crate::client::negotiate::PendingNegotiate;
use crate::client::signing::SigningAlgorithm;
use crate::laws::answers::dialect_numbered;
use crate::laws::answers::has_head;
use crate::laws::answers::law_header_is_read;
use crate::laws::requests::lemma_request_head;
use crate::laws::requests::lemma_same_prefix;
use crate::laws::requests::request_head;
use crate::wire::context::contexts_fit;
use crate::wire::context::negotiate_context_bytes;
use crate::wire::context::negotiate_contexts_bytes;
use crate::wire::context::pad8;
use crate::wire::context::preauth_sha512_view;
use crate::wire::context::NegotiateContextView;
use crate::wire::header::header_bytes;
use crate::wire::header::request_header;
use crate::wire::header::Command;
use crate::wire::negotiate::dialect_bytes;
use crate::wire::negotiate::negotiate_context_offset;
use crate::wire::negotiate::negotiate_contexts_of;
use crate::wire::negotiate::negotiate_fixed_bytes;
use crate::wire::negotiate::negotiate_request_bytes;
use crate::wire::negotiate::negotiate_request_error;
use crate::wire::negotiate::negotiate_response_contexts;
use crate::wire::negotiate::Dialect;
use crate::wire::negotiate::NegotiateRequestView;
use vstd::prelude::*;

verus! {

/// A list of dialects holds the revision number of each, two bytes apart.
proof fn lemma_dialect_bytes(dialects: Seq<Dialect>)
    ensures
        dialect_bytes(dialects).len() == 2 * dialects.len(),
        forall|i: int|
            0 <= i < dialects.len() ==> dialect_numbered(
                #[trigger] dialects[i],
                u16_at(dialect_bytes(dialects), 2 * i),
            ),
    decreases dialects.len(),
{
    broadcast use crate::bytes::group_byte_layout;

    if dialects.len() > 0 {
        let before = dialects.drop_last();
        lemma_dialect_bytes(before);
        assert forall|i: int| 0 <= i < dialects.len() implies dialect_numbered(
            #[trigger] dialects[i],
            u16_at(dialect_bytes(dialects), 2 * i),
        ) by {
            if i < before.len() {
                assert(before[i] == dialects[i]);
            }
        }
    }
}

/// Which signing algorithm a number stands for.
pub open spec fn algorithm_numbered(algorithm: SigningAlgorithm, number: u16) -> bool {
    match algorithm {
        SigningAlgorithm::HmacSha256 => number == 0,
        SigningAlgorithm::AesCmac => number == 1,
        SigningAlgorithm::AesGmac => number == 2,
    }
}

/// A list of algorithms holds the number of each, two bytes apart.
proof fn lemma_algorithm_bytes(algorithms: Seq<SigningAlgorithm>)
    ensures
        algorithm_bytes(algorithms).len() == 2 * algorithms.len(),
        forall|i: int|
            0 <= i < algorithms.len() ==> algorithm_numbered(
                #[trigger] algorithms[i],
                u16_at(algorithm_bytes(algorithms), 2 * i),
            ),
    decreases algorithms.len(),
{
    broadcast use crate::bytes::group_byte_layout;

    if algorithms.len() > 0 {
        let before = algorithms.drop_last();
        lemma_algorithm_bytes(before);
        assert forall|i: int| 0 <= i < algorithms.len() implies algorithm_numbered(
            #[trigger] algorithms[i],
            u16_at(algorithm_bytes(algorithms), 2 * i),
        ) by {
            if i < before.len() {
                assert(before[i] == algorithms[i]);
            }
        }
    }
}

/// Where the context at a position begins, from the first one on.
#[verifier::opaque]
spec fn context_place(cs: Seq<NegotiateContextView>, k: int) -> int {
    if k <= 0 {
        0
    } else {
        let n = negotiate_contexts_bytes(cs.take(k)).len() as int;
        n + pad8(n)
    }
}

/// Where the context at a position ends, from the first one on.
#[verifier::opaque]
spec fn context_end(cs: Seq<NegotiateContextView>, k: int) -> int {
    negotiate_contexts_bytes(cs.take(k + 1)).len() as int
}

/// The context at a position stands in the bytes of all of them.
proof fn lemma_context_place(cs: Seq<NegotiateContextView>, k: int)
    requires
        0 <= k < cs.len(),
    ensures
        0 <= context_place(cs, k),
        context_place(cs, k) + negotiate_context_bytes(cs[k]).len() == context_end(cs, k),
        context_end(cs, k) <= negotiate_contexts_bytes(cs).len(),
        negotiate_contexts_bytes(cs).subrange(context_place(cs, k), context_end(cs, k))
            == negotiate_context_bytes(cs[k]),
    decreases cs.len(),
{
    reveal(context_place);
    reveal(context_end);
    let all = negotiate_contexts_bytes(cs);
    if k == cs.len() - 1 {
        assert(cs.take(k + 1) =~= cs);
        assert(cs.take(k) =~= cs.drop_last());
        assert(all.subrange(context_place(cs, k), context_end(cs, k))
            =~= negotiate_context_bytes(cs[k]));
    } else {
        let before = cs.drop_last();
        lemma_context_place(before, k);
        assert(before.take(k) =~= cs.take(k));
        assert(before.take(k + 1) =~= cs.take(k + 1));
        let first = negotiate_contexts_bytes(before);
        assert(all.subrange(context_place(cs, k), context_end(cs, k)) =~= first.subrange(
            context_place(cs, k),
            context_end(cs, k),
        ));
    }
}

/// One context reads as itself where its bytes stand.
proof fn lemma_one_context(m: Seq<u8>, at: int, c: NegotiateContextView)
    requires
        0 <= at,
        c.data.len() <= u16::MAX,
        at + negotiate_context_bytes(c).len() <= m.len(),
        m.subrange(at, at + negotiate_context_bytes(c).len()) == negotiate_context_bytes(c),
    ensures
        negotiate_context_bytes(c).len() == 8 + c.data.len(),
        u16_at(m, at) == c.context_type,
        u16_at(m, at + 2) == c.data.len(),
        m.subrange(at + 8, at + 8 + c.data.len()) == c.data,
{
    broadcast use crate::bytes::group_byte_layout;

    let b = negotiate_context_bytes(c);
    let n = b.len() as int;
    assert(u16_at(b, 0) == c.context_type);
    assert(u16_at(b, 2) == c.data.len());
    assert(b.subrange(8, n) =~= c.data);
    let sub = m.subrange(at, at + n);
    assert(u16_at(m, at) == u16_at(b, 0) && u16_at(m, at + 2) == u16_at(b, 2)) by {
        reveal(u16_at);
        assert(sub[0] == m[at] && sub[1] == m[at + 1] && sub[2] == m[at + 2] && sub[3] == m[at
            + 3]);
    }
    assert(m.subrange(at + 8, at + n) =~= sub.subrange(8, n));
}

/// Padding does not depend on what is already a multiple of eight.
proof fn lemma_pad_shift(at: int, n: int)
    requires
        at % 8 == 0,
    ensures
        pad8(at + n) == pad8(n),
{
}

/// A context that reads as itself, and others that read behind it, read together.
proof fn lemma_read_one(
    m: Seq<u8>,
    at: int,
    c: NegotiateContextView,
    n: nat,
    rest: Seq<NegotiateContextView>,
)
    requires
        n > 0,
        at + 8 + c.data.len() <= m.len(),
        u16_at(m, at) == c.context_type,
        u16_at(m, at + 2) == c.data.len(),
        m.subrange(at + 8, at + 8 + c.data.len()) == c.data,
        ({
            let end = at + 8 + c.data.len();
            negotiate_contexts_of(m, end + pad8(end), (n - 1) as nat) == Some(rest)
        }),
    ensures
        negotiate_contexts_of(m, at, n) == Some(seq![c] + rest),
{
}

/// The contexts from a position on read as themselves where the bytes of all stand.
proof fn lemma_contexts_from(m: Seq<u8>, at: int, cs: Seq<NegotiateContextView>, k: int)
    requires
        0 <= at,
        at % 8 == 0,
        0 <= k < cs.len(),
        contexts_fit(cs),
        m.len() == at + negotiate_contexts_bytes(cs).len(),
        m.skip(at) == negotiate_contexts_bytes(cs),
    ensures
        negotiate_contexts_of(m, at + context_place(cs, k), (cs.len() - k) as nat) == Some(
            cs.skip(k),
        ),
    decreases cs.len() - k,
{
    reveal(context_place);
    reveal(context_end);
    let place = at + context_place(cs, k);
    let end = at + context_end(cs, k);
    let c = cs[k];
    lemma_context_place(cs, k);
    lemma_stands_in(m, at, cs, k);
    lemma_one_context(m, place, c);
    lemma_pad_shift(at, context_end(cs, k));
    let more = (cs.len() - k - 1) as nat;
    if more > 0 {
        lemma_contexts_from(m, at, cs, k + 1);
        assert(context_place(cs, k + 1) == context_end(cs, k) + pad8(context_end(cs, k)));
        lemma_read_one(m, place, c, (more + 1) as nat, cs.skip(k + 1));
        assert(cs.skip(k) =~= seq![c] + cs.skip(k + 1));
    } else {
        lemma_read_one(m, place, c, 1, Seq::empty());
        assert(cs.skip(k) =~= seq![c] + Seq::empty());
    }
}

/// A context that stands in the bytes of all stands in the message behind them.
proof fn lemma_stands_in(m: Seq<u8>, at: int, cs: Seq<NegotiateContextView>, k: int)
    requires
        0 <= at,
        0 <= k < cs.len(),
        m.len() == at + negotiate_contexts_bytes(cs).len(),
        m.skip(at) == negotiate_contexts_bytes(cs),
        context_place(cs, k) + negotiate_context_bytes(cs[k]).len() == context_end(cs, k),
        context_end(cs, k) <= negotiate_contexts_bytes(cs).len(),
        0 <= context_place(cs, k),
        negotiate_contexts_bytes(cs).subrange(context_place(cs, k), context_end(cs, k))
            == negotiate_context_bytes(cs[k]),
    ensures
        m.subrange(at + context_place(cs, k), at + context_end(cs, k)) == negotiate_context_bytes(
            cs[k],
        ),
{
    let place = context_place(cs, k);
    let end = context_end(cs, k);
    assert(m.subrange(at + place, at + end) =~= m.skip(at).subrange(place, end));
}

/// What a NEGOTIATE request offers, as a server reads it.
pub open spec fn negotiate_asked(
    m: Seq<u8>,
    security_mode: u16,
    capabilities: u32,
    client_guid: Seq<u8>,
    dialects: Seq<Dialect>,
    contexts: Seq<NegotiateContextView>,
) -> bool {
    &&& m.len() >= 100 + 2 * dialects.len()
    &&& u16_at(m, 64) == 36
    &&& u16_at(m, 66) == dialects.len()
    &&& u16_at(m, 68) == security_mode
    &&& u16_at(m, 70) == 0
    &&& u32_at(m, 72) == capabilities
    &&& m.subrange(76, 92) == client_guid
    &&& u16_at(m, 96) == contexts.len()
    &&& u16_at(m, 98) == 0
    &&& forall|i: int|
        0 <= i < dialects.len() ==> dialect_numbered(
            #[trigger] dialects[i],
            u16_at(m, 100 + 2 * i),
        )
    &&& if contexts.len() == 0 {
        u32_at(m, 92) == 0 && m.len() == 100 + 2 * dialects.len()
    } else {
        &&& u32_at(m, 92) % 8 == 0
        &&& 100 + 2 * dialects.len() <= u32_at(m, 92) < 108 + 2 * dialects.len()
        &&& negotiate_contexts_of(m, u32_at(m, 92) as int, contexts.len()) == Some(contexts)
    }
}

/// The fixed part of a NEGOTIATE request reads as what it was written from.
#[verifier::spinoff_prover]
proof fn lemma_negotiate_fixed(
    q: NegotiateRequestView,
    message_id: u64,
    credits: u16,
    offset: u32,
)
    requires
        q.client_guid.len() == 16,
        q.dialects.len() <= u16::MAX,
        q.contexts.len() <= u16::MAX,
    ensures
        ({
            let m = negotiate_fixed_bytes(q, message_id, credits, offset);
            &&& m.len() == 100
            &&& request_head(m, 0, 0, credits, message_id, 0, 0)
            &&& u32_at(m, 16) == 0
            &&& u16_at(m, 64) == 36
            &&& u16_at(m, 66) == q.dialects.len()
            &&& u16_at(m, 68) == q.security_mode
            &&& u16_at(m, 70) == 0
            &&& u32_at(m, 72) == q.capabilities
            &&& m.subrange(76, 92) == q.client_guid
            &&& u32_at(m, 92) == offset
            &&& u16_at(m, 96) == q.contexts.len()
            &&& u16_at(m, 98) == 0
        }),
{
    broadcast use crate::bytes::group_byte_layout;

    reveal(negotiate_fixed_bytes);
    let m = negotiate_fixed_bytes(q, message_id, credits, offset);
    let head = header_bytes(request_header(Command::Negotiate, message_id, 0, 0, 0, credits));
    lemma_request_head(Command::Negotiate, message_id, 0, 0, 0, credits);
    assert forall|i: int| 0 <= i < 64 implies #[trigger] m[i] == head[i] by {}
    lemma_same_prefix(m, head);
    assert(u16_at(m, 64) == 36);
    assert(u16_at(m, 66) == q.dialects.len());
    assert(u16_at(m, 68) == q.security_mode);
    assert(u16_at(m, 70) == 0);
    assert(u32_at(m, 72) == q.capabilities);
    assert(m.subrange(76, 92) =~= q.client_guid);
    assert(u32_at(m, 92) == offset);
    assert(u16_at(m, 96) == q.contexts.len());
    assert(u16_at(m, 98) == 0);
}

/// A NEGOTIATE request holds, read back from its bytes, each dialect by its revision number, the
/// security mode at 68, the capabilities at 72, the client's GUID at 76, and the contexts in their
/// order where the field at 92 says.
pub proof fn law_negotiate_request(q: NegotiateRequestView, message_id: u64, credits: u16)
    requires
        negotiate_request_error(q) is None,
        q.client_guid.len() == 16,
    ensures
        ({
            let m = negotiate_request_bytes(q, message_id, credits);
            &&& request_head(m, 0, 0, credits, message_id, 0, 0)
            &&& u32_at(m, 16) == 0
            &&& negotiate_asked(
                m,
                q.security_mode,
                q.capabilities,
                q.client_guid,
                q.dialects,
                q.contexts,
            )
        }),
{
    broadcast use crate::bytes::group_byte_layout;

    let m = negotiate_request_bytes(q, message_id, credits);
    let n = q.dialects.len() as int;
    let offset = if q.contexts.len() == 0 {
        0
    } else {
        negotiate_context_offset(n)
    };
    lemma_negotiate_fixed(q, message_id, credits, offset as u32);
    lemma_dialect_bytes(q.dialects);
    let fixed = negotiate_fixed_bytes(q, message_id, credits, offset as u32);
    let listed = dialect_bytes(q.dialects);
    let rest = if q.contexts.len() == 0 {
        Seq::<u8>::empty()
    } else {
        zeros(pad8(100 + 2 * n)) + negotiate_contexts_bytes(q.contexts)
    };
    assert(m =~= fixed + (listed + rest));
    assert(m.subrange(76, 92) =~= fixed.subrange(76, 92));
    assert forall|i: int| 0 <= i < n implies dialect_numbered(
        #[trigger] q.dialects[i],
        u16_at(m, 100 + 2 * i),
    ) by {
        assert(u16_at(m, 100 + 2 * i) == u16_at(listed + rest, 2 * i));
        assert(u16_at(listed + rest, 2 * i) == u16_at(listed, 2 * i));
    }
    if q.contexts.len() > 0 {
        assert(m.skip(offset) =~= negotiate_contexts_bytes(q.contexts));
        reveal(context_place);
        lemma_contexts_from(m, offset, q.contexts, 0);
        assert(q.contexts.skip(0) =~= q.contexts);
    }
}

/// Whether a context offers SHA-512, number 1, alone, with a salt, as context type 1.
pub open spec fn offers_sha512(c: NegotiateContextView, salt: Seq<u8>) -> bool {
    &&& c.context_type == 1
    &&& c.data.len() == 6 + salt.len()
    &&& u16_at(c.data, 0) == 1
    &&& u16_at(c.data, 2) == salt.len()
    &&& u16_at(c.data, 4) == 1
    &&& c.data.skip(6) == salt
}

/// Whether a context offers signing algorithms, in their order, as context type 8.
pub open spec fn offers_signing(c: NegotiateContextView, algorithms: Seq<SigningAlgorithm>) -> bool {
    &&& c.context_type == 8
    &&& c.data.len() == 2 + 2 * algorithms.len()
    &&& u16_at(c.data, 0) == algorithms.len()
    &&& forall|i: int|
        0 <= i < algorithms.len() ==> algorithm_numbered(
            #[trigger] algorithms[i],
            u16_at(c.data, 2 + 2 * i),
        )
}

/// A client offers what it is configured with: its dialects, security mode, capabilities and GUID,
/// and contexts only along with SMB 3.1.1: SHA-512 with the salt, and its signing algorithms where it
/// has any.
pub proof fn law_client_offers_its_configuration(config: NegotiateConfig)
    requires
        offered_request_of(config) is Ok,
    ensures
        ({
            let q = offered_request_of(config)->Ok_0;
            &&& q.security_mode == config.security_mode
            &&& q.capabilities == config.capabilities
            &&& q.client_guid == config.client_guid@
            &&& q.dialects == config.dialects@
            &&& if !config.dialects@.contains(Dialect::Smb311) {
                q.contexts.len() == 0
            } else {
                &&& config.preauth_salt@.len() > 0
                &&& q.contexts.len() == if config.signing_algorithms@.len() == 0 {
                    1int
                } else {
                    2
                }
                &&& offers_sha512(q.contexts[0], config.preauth_salt@)
                &&& config.signing_algorithms@.len() > 0 ==> offers_signing(
                    q.contexts[1],
                    config.signing_algorithms@,
                )
            }
        }),
{
    broadcast use crate::bytes::group_byte_layout;

    if config.dialects@.contains(Dialect::Smb311) {
        let salt = config.preauth_salt@;
        let preauth = preauth_sha512_view(salt);
        assert(u16_at(preauth.data, 0) == 1);
        assert(u16_at(preauth.data, 2) == salt.len());
        assert(u16_at(preauth.data, 4) == 1);
        assert(preauth.data.skip(6) =~= salt);
        let algorithms = config.signing_algorithms@;
        if algorithms.len() > 0 {
            let signing = signing_capabilities_of(algorithms)->Ok_0;
            lemma_algorithm_bytes(algorithms);
            assert forall|i: int| 0 <= i < algorithms.len() implies algorithm_numbered(
                #[trigger] algorithms[i],
                u16_at(signing.data, 2 + 2 * i),
            ) by {
                assert(u16_at(signing.data, 2 + 2 * i) == u16_at(
                    algorithm_bytes(algorithms),
                    2 * i,
                ));
            }
        }
    }
}

/// Whether a message offers what a configuration says: the NEGOTIATE request, unsigned, of no session and
/// on no tree, with the configured credits, dialects, security mode, capabilities and GUID, and, along
/// with SMB 3.1.1 alone, SHA-512 with the salt and the signing algorithms where there are any.
pub open spec fn negotiate_sent(m: Seq<u8>, message_id: u64, config: NegotiateConfig) -> bool {
    &&& request_head(m, 0, 0, config.credit_request, message_id, 0, 0)
    &&& u32_at(m, 16) == 0
    &&& exists|contexts: Seq<NegotiateContextView>|
        {
            &&& #[trigger] negotiate_asked(
                m,
                config.security_mode,
                config.capabilities,
                config.client_guid@,
                config.dialects@,
                contexts,
            )
            &&& if !config.dialects@.contains(Dialect::Smb311) {
                contexts.len() == 0
            } else {
                &&& contexts.len() == if config.signing_algorithms@.len() == 0 {
                    1int
                } else {
                    2
                }
                &&& offers_sha512(contexts[0], config.preauth_salt@)
                &&& config.signing_algorithms@.len() > 0 ==> offers_signing(
                    contexts[1],
                    config.signing_algorithms@,
                )
            }
        }
}

/// The NEGOTIATE request of a configuration offers, read back from its bytes, just what it says.
pub proof fn law_negotiate_message(config: NegotiateConfig, message_id: u64)
    requires
        offered_request_of(config) is Ok,
        negotiate_request_error(offered_request_of(config)->Ok_0) is None,
    ensures
        negotiate_sent(
            negotiate_request_bytes(
                offered_request_of(config)->Ok_0,
                message_id,
                config.credit_request,
            ),
            message_id,
            config,
        ),
{
    let q = offered_request_of(config)->Ok_0;
    law_client_offers_its_configuration(config);
    law_negotiate_request(q, message_id, config.credit_request);
    let m = negotiate_request_bytes(q, message_id, config.credit_request);
    assert(negotiate_asked(
        m,
        config.security_mode,
        config.capabilities,
        config.client_guid@,
        config.dialects@,
        q.contexts,
    ));
}

/// The contexts of one type are those and no others: a list without any has none, and each one counts
/// where it stands.
proof fn lemma_data_of_type(contexts: Seq<NegotiateContextView>, context_type: u16)
    ensures
        data_of_type(contexts, context_type).len() <= contexts.len(),
        forall|j: int|
            0 <= j < data_of_type(contexts, context_type).len() ==> exists|i: int|
                0 <= i < contexts.len() && (#[trigger] contexts[i]).context_type == context_type
                    && contexts[i].data == #[trigger] data_of_type(contexts, context_type)[j],
        data_of_type(contexts, context_type).len() == 0 <==> forall|i: int|
            0 <= i < contexts.len() ==> (#[trigger] contexts[i]).context_type != context_type,
    decreases contexts.len(),
{
    if contexts.len() > 0 {
        let before = contexts.drop_last();
        let n = contexts.len() - 1;
        lemma_data_of_type(before, context_type);
        let all = data_of_type(contexts, context_type);
        assert(contexts[n] == contexts.last());
        assert forall|j: int| 0 <= j < all.len() implies exists|i: int|
            0 <= i < contexts.len() && (#[trigger] contexts[i]).context_type == context_type
                && contexts[i].data == #[trigger] all[j] by {
            let earlier = data_of_type(before, context_type);
            if j < earlier.len() {
                let i = choose|i: int|
                    0 <= i < before.len() && (#[trigger] before[i]).context_type == context_type
                        && before[i].data == earlier[j];
                assert(contexts[i].data == all[j]);
            } else {
                assert(contexts[n].data == all[j]);
            }
        }
        if all.len() == 0 {
            assert forall|i: int| 0 <= i < contexts.len() implies (#[trigger] contexts[i]).context_type
                != context_type by {
                if i < n {
                    assert(before[i] == contexts[i]);
                }
            }
        } else if forall|i: int|
            0 <= i < contexts.len() ==> (#[trigger] contexts[i]).context_type != context_type {
            assert forall|i: int| 0 <= i < before.len() implies (#[trigger] before[i]).context_type
                != context_type by {
                assert(contexts[i].context_type != context_type);
            }
        }
    }
}

/// Under SMB 3.1.1 the server selects how messages are signed by a context of type 8 with just one
/// number, which must have been offered; where it sends none, AES-CMAC is used. Under earlier dialects
/// its contexts do not matter.
pub proof fn law_selected_algorithm(
    dialect: Dialect,
    contexts: Seq<NegotiateContextView>,
    offered: Seq<SigningAlgorithm>,
)
    ensures
        ({
            let selected = selected_algorithm_of(dialect, contexts, offered);
            let silent = forall|i: int|
                0 <= i < contexts.len() ==> (#[trigger] contexts[i]).context_type != 8;
            match dialect {
                Dialect::Smb202 | Dialect::Smb210 => selected == Ok::<_, ClientError>(
                    SigningAlgorithm::HmacSha256,
                ),
                Dialect::Smb300 | Dialect::Smb302 => selected == Ok::<_, ClientError>(
                    SigningAlgorithm::AesCmac,
                ),
                Dialect::Smb311 => {
                    &&& silent ==> selected == Ok::<_, ClientError>(SigningAlgorithm::AesCmac)
                    &&& !silent && selected is Ok ==> {
                        &&& offered.contains(selected->Ok_0)
                        &&& exists|i: int|
                            {
                                &&& 0 <= i < contexts.len()
                                &&& (#[trigger] contexts[i]).context_type == 8
                                &&& u16_at(contexts[i].data, 0) == 1
                                &&& algorithm_numbered(
                                    selected->Ok_0,
                                    u16_at(contexts[i].data, 2),
                                )
                            }
                    }
                },
            }
        }),
{
    lemma_data_of_type(contexts, 8);
    let matching = data_of_type(contexts, 8);
    if matching.len() == 1 {
        let i = choose|i: int|
            0 <= i < contexts.len() && (#[trigger] contexts[i]).context_type == 8
                && contexts[i].data == matching[0];
        assert(contexts[i].data == matching[0]);
    }
}

/// Under SMB 3.1.1 a server is accepted only with a context of type 1 that offers SHA-512, number 1.
pub proof fn law_sha512_is_selected(contexts: Seq<NegotiateContextView>)
    requires
        preauth_context_error(contexts) is None,
    ensures
        exists|i: int, k: int|
            {
                &&& 0 <= i < contexts.len()
                &&& (#[trigger] contexts[i]).context_type == 1
                &&& 0 <= k < u16_at(contexts[i].data, 0)
                &&& 4 + 2 * k + 2 <= contexts[i].data.len()
                &&& #[trigger] preauth_algorithm_at(contexts[i].data, k) == 1
                &&& u16_at(contexts[i].data, 4 + 2 * k) == 1
            },
{
    lemma_data_of_type(contexts, 1);
    let matching = data_of_type(contexts, 1);
    let data = matching[0];
    let i = choose|i: int|
        0 <= i < contexts.len() && (#[trigger] contexts[i]).context_type == 1 && contexts[i].data
            == matching[0];
    let k = choose|k: int|
        0 <= k < u16_at(data, 0) && #[trigger] preauth_algorithm_at(data, k) == 1;
    assert(preauth_algorithm_at(contexts[i].data, k) == 1);
}

/// Whether a context is the only one of its type.
pub open spec fn only_one(contexts: Seq<NegotiateContextView>, context_type: u16, i: int) -> bool {
    &&& 0 <= i < contexts.len()
    &&& forall|j: int|
        0 <= j < contexts.len() ==> ((#[trigger] contexts[j]).context_type == context_type <==> j
            == i)
}

/// The data of the only context of a type.
proof fn lemma_only_one(contexts: Seq<NegotiateContextView>, context_type: u16, i: int)
    requires
        only_one(contexts, context_type, i),
    ensures
        data_of_type(contexts, context_type) == seq![contexts[i].data],
    decreases contexts.len(),
{
    let before = contexts.drop_last();
    let n = contexts.len() - 1;
    assert(contexts[n] == contexts.last());
    if i == n {
        lemma_data_of_type(before, context_type);
        assert forall|j: int| 0 <= j < before.len() implies (#[trigger] before[j]).context_type
            != context_type by {
            assert(before[j] == contexts[j]);
        }
        assert(data_of_type(before, context_type) =~= Seq::empty());
        assert(data_of_type(contexts, context_type) =~= seq![contexts[i].data]);
    } else {
        assert forall|j: int| 0 <= j < before.len() implies ((#[trigger] before[j]).context_type
            == context_type <==> j == i) by {
            assert(before[j] == contexts[j]);
        }
        lemma_only_one(before, context_type, i);
    }
}

/// The data of two contexts of a type.
proof fn lemma_two(contexts: Seq<NegotiateContextView>, context_type: u16, i: int, j: int)
    requires
        0 <= i < j < contexts.len(),
        contexts[i].context_type == context_type,
        contexts[j].context_type == context_type,
    ensures
        data_of_type(contexts, context_type).len() >= 2,
    decreases contexts.len(),
{
    let before = contexts.drop_last();
    if j == contexts.len() - 1 {
        lemma_data_of_type(before, context_type);
        assert(before[i] == contexts[i]);
    } else {
        lemma_two(before, context_type, i, j);
    }
}

/// Where the server names its signing algorithm once, it is accepted if and only if it names exactly one,
/// by a number that stands for an algorithm that was offered.
pub proof fn law_named_algorithm(
    contexts: Seq<NegotiateContextView>,
    i: int,
    offered: Seq<SigningAlgorithm>,
)
    requires
        only_one(contexts, 8, i),
    ensures
        ({
            let data = contexts[i].data;
            let selected = selected_algorithm_of(Dialect::Smb311, contexts, offered);
            &&& selected is Ok <==> {
                &&& data.len() >= 4
                &&& u16_at(data, 0) == 1
                &&& exists|a: SigningAlgorithm|
                    offered.contains(a) && #[trigger] algorithm_numbered(a, u16_at(data, 2))
            }
            &&& selected is Ok ==> algorithm_numbered(selected->Ok_0, u16_at(data, 2))
        }),
{
    lemma_only_one(contexts, 8, i);
    let data = contexts[i].data;
    assert(algorithm_numbered(SigningAlgorithm::HmacSha256, 0));
    assert(algorithm_numbered(SigningAlgorithm::AesCmac, 1));
    assert(algorithm_numbered(SigningAlgorithm::AesGmac, 2));
    let selected = selected_algorithm_of(Dialect::Smb311, contexts, offered);
    if selected is Ok {
        assert(offered.contains(selected->Ok_0) && algorithm_numbered(
            selected->Ok_0,
            u16_at(data, 2),
        ));
    }
}

/// The hash of the preauthentication is accepted if and only if the server names its algorithms once, in
/// a context that is as long as it says, and SHA-512, number 1, is among them.
pub proof fn law_named_hash(contexts: Seq<NegotiateContextView>, i: int)
    requires
        only_one(contexts, 1, i),
    ensures
        ({
            let data = contexts[i].data;
            let count = u16_at(data, 0) as int;
            preauth_context_error(contexts) is None <==> {
                &&& data.len() >= 6
                &&& data.len() >= 4 + 2 * count + u16_at(data, 2)
                &&& exists|k: int| 0 <= k < count && #[trigger] preauth_algorithm_at(data, k) == 1
            }
        }),
{
    lemma_only_one(contexts, 1, i);
}

/// A server that names its hashes twice, or not at all, or its signing algorithm twice, is refused.
pub proof fn law_ambiguous_contexts_are_refused(
    contexts: Seq<NegotiateContextView>,
    i: int,
    j: int,
    offered: Seq<SigningAlgorithm>,
)
    requires
        0 <= i < j < contexts.len(),
        contexts[i].context_type == contexts[j].context_type,
    ensures
        contexts[i].context_type == 1 ==> preauth_context_error(contexts) is Some,
        contexts[i].context_type == 8 ==> selected_algorithm_of(
            Dialect::Smb311,
            contexts,
            offered,
        ) is Err,
        (forall|k: int| 0 <= k < contexts.len() ==> (#[trigger] contexts[k]).context_type != 1)
            ==> preauth_context_error(contexts) is Some,
{
    lemma_two(contexts, contexts[i].context_type, i, j);
    lemma_data_of_type(contexts, 1);
}

/// Contexts of a negotiation are read one by one: the type at 0, the length of the data at 2, the data at 8;
/// the next one begins at the next multiple of eight. What lies outside the message is refused.
pub proof fn law_negotiate_contexts_are_read_one_by_one(m: Seq<u8>, at: int, n: nat)
    requires
        at >= 0,
        n > 0,
    ensures
        ({
            let end = at + 8 + u16_at(m, at + 2);
            let next = (end + 7) / 8 * 8;
            let rest = negotiate_contexts_of(m, next, (n - 1) as nat);
            let contexts = negotiate_contexts_of(m, at, n);
            &&& contexts is Some <==> at + 8 <= m.len() && end <= m.len() && rest is Some
            &&& contexts is Some ==> {
                &&& contexts->0.len() == n
                &&& contexts->0[0].context_type == u16_at(m, at)
                &&& contexts->0[0].data == m.subrange(at + 8, end)
                &&& contexts->0.drop_first() == rest->0
            }
        }),
    decreases n,
{
    let end = at + 8 + u16_at(m, at + 2);
    assert(end + pad8(end) == (end + 7) / 8 * 8);
    let contexts = negotiate_contexts_of(m, at, n);
    if contexts is Some {
        let rest = negotiate_contexts_of(m, (end + 7) / 8 * 8, (n - 1) as nat)->0;
        if n > 1 {
            law_negotiate_contexts_are_read_one_by_one(m, (end + 7) / 8 * 8, (n - 1) as nat);
        }
        assert(contexts->0.drop_first() =~= rest);
    }
}

/// A NEGOTIATE response has contexts only where it selects SMB 3.1.1: as many as the field at 70 says, from
/// where the field at 124 says, behind the fixed part.
pub proof fn law_negotiate_response_contexts(m: Seq<u8>)
    ensures
        ({
            let n = u16_at(m, 70) as nat;
            let at = u32_at(m, 124) as int;
            negotiate_response_contexts(m) == if u16_at(m, 68) != 0x0311 || n == 0 {
                Some(Seq::empty())
            } else if at < 128 {
                None
            } else {
                negotiate_contexts_of(m, at, n)
            }
        }),
{
}

/// A NEGOTIATE response is accepted if and only if it answers the request with success, has the fixed part
/// of its kind and contexts that can be read, selects a dialect that was offered, with the hash and an
/// algorithm that can be used, and gives limits and credits that are not zero.
pub proof fn law_negotiate_is_accepted(
    config: NegotiateConfig,
    pending: PendingNegotiate,
    m: Seq<u8>,
    dialect: Dialect,
)
    requires
        dialect_numbered(dialect, u16_at(m, 68)),
        dialect == Dialect::Smb311 ==> pending.preauth is Some,
    ensures
        ({
            let contexts = negotiate_response_contexts(m);
            negotiate_finish_error(config, pending, m) is None <==> {
                &&& has_head(m)
                &&& u16_at(m, 12) == 0
                &&& u32_at(m, 16) & 1 != 0
                &&& u32_at(m, 8) == 0
                &&& u64_at(m, 24) == pending.message_id
                &&& m.len() >= 128
                &&& u16_at(m, 64) == 65
                &&& contexts is Some
                &&& config.dialects@.contains(dialect)
                &&& dialect == Dialect::Smb311 ==> preauth_context_error(contexts->0) is None
                &&& selected_algorithm_of(dialect, contexts->0, config.signing_algorithms@) is Ok
                &&& u32_at(m, 92) > 0
                &&& u32_at(m, 96) > 0
                &&& u32_at(m, 100) > 0
                &&& u16_at(m, 14) > 0
            }
        }),
{
    law_header_is_read(m);
}

} // verus!
