//! NEGOTIATE: what a client offers and what a server selects.

use crate::bytes::copy_bytes;
use crate::bytes::get_u16;
use crate::bytes::le16;
use crate::bytes::put_u16;
use crate::bytes::u16_at;
use crate::bytes::u32_at;
use crate::client::connection::check_status;
use crate::client::connection::status_error;
use crate::client::connection::Connection;
use crate::client::credits::CreditManager;
use crate::client::credits::DEFAULT_TARGET_CREDITS;
use crate::client::error::from_wire;
use crate::client::error::ClientError;
use crate::client::preauth::preauth_next;
use crate::client::preauth::PreauthIntegrityHash;
use crate::client::signing::preauth_view;
use crate::client::signing::SigningAlgorithm;
use crate::laws::negotiation::law_negotiate_message;
use crate::laws::negotiation::negotiate_sent;
use crate::laws::answers::law_negotiate_answer;
use crate::laws::answers::parameters_stand;
use crate::wire::constants::CAPABILITY_LARGE_MTU;
use crate::wire::constants::CONTEXT_PREAUTH_INTEGRITY_CAPABILITIES;
use crate::wire::constants::CONTEXT_SIGNING_CAPABILITIES;
use crate::wire::constants::PREAUTH_HASH_SHA_512;
use crate::wire::constants::SECURITY_MODE_SIGNING_ENABLED;
use crate::wire::constants::SECURITY_MODE_SIGNING_REQUIRED;
use crate::wire::context::context_views;
use crate::wire::context::preauth_sha512_view;
use crate::wire::context::NegotiateContext;
use crate::wire::context::NegotiateContextView;
use crate::wire::error::WireError;
use crate::wire::header::header_error;
use crate::wire::header::header_of;
use crate::wire::header::Smb2Header;
use crate::wire::negotiate::dialects_contain;
use crate::wire::negotiate::negotiate_request_bytes;
use crate::wire::negotiate::negotiate_request_error;
use crate::wire::negotiate::negotiate_response_contexts;
use crate::wire::negotiate::negotiate_response_error;
use crate::wire::negotiate::Dialect;
use crate::wire::negotiate::NegotiateRequest;
use crate::wire::negotiate::NegotiateRequestView;
use crate::wire::negotiate::NegotiateResponse;
use vstd::prelude::*;

verus! {

/// What a client offers.
#[derive(Debug, Clone)]
pub struct NegotiateConfig {
    pub dialects: Vec<Dialect>,
    pub security_mode: u16,
    pub capabilities: u32,
    pub client_guid: [u8; 16],
    /// Caller-provided random salt for the SMB 3.1.1 preauthentication context.
    pub preauth_salt: Vec<u8>,
    /// SMB 3.1.1 signing algorithms in preference order. Unsupported algorithms must not be
    /// advertised. Dialects before SMB 3.1.1 use their fixed signing algorithm regardless of this
    /// list.
    pub signing_algorithms: Vec<SigningAlgorithm>,
    pub credit_request: u16,
}

/// What was negotiated.
#[derive(Debug, Clone, Copy, PartialEq, Eq)]
pub struct NegotiatedParameters {
    pub dialect: Dialect,
    pub security_mode: u16,
    pub capabilities: u32,
    pub server_guid: [u8; 16],
    pub max_transact_size: u32,
    pub max_read_size: u32,
    pub max_write_size: u32,
    pub initial_credits: u16,
    pub signing_algorithm: SigningAlgorithm,
    pub require_signing: bool,
}

impl NegotiatedParameters {
    /// Whether requests may cost more than one credit.
    pub open spec fn multi_credit(self) -> bool {
        self.dialect != Dialect::Smb202 && self.capabilities & CAPABILITY_LARGE_MTU != 0
    }

    pub fn signing_enabled(&self) -> (r: bool)
        ensures
            r == (self.security_mode & SECURITY_MODE_SIGNING_ENABLED != 0),
    {
        self.security_mode & SECURITY_MODE_SIGNING_ENABLED != 0
    }

    pub fn signing_required(&self) -> (r: bool)
        ensures
            r == self.require_signing,
    {
        self.require_signing
    }

    pub fn supports_multi_credit(&self) -> (r: bool)
        ensures
            r == self.multi_credit(),
    {
        self.dialect != Dialect::Smb202 && self.capabilities & CAPABILITY_LARGE_MTU != 0
    }
}

/// Whether a list of signing algorithms holds one.
fn algorithms_contain(algorithms: &Vec<SigningAlgorithm>, wanted: SigningAlgorithm) -> (r: bool)
    ensures
        r == algorithms@.contains(wanted),
{
    let mut i: usize = 0;
    while i < algorithms.len()
        invariant
            i <= algorithms@.len(),
            forall|j: int| 0 <= j < i ==> algorithms@[j] != wanted,
        decreases algorithms@.len() - i,
    {
        if algorithms[i] == wanted {
            return true;
        }
        i = i + 1;
    }
    false
}

/// The assigned numbers of signing algorithms.
pub open spec fn algorithm_bytes(algorithms: Seq<SigningAlgorithm>) -> Seq<u8>
    decreases algorithms.len(),
{
    if algorithms.len() == 0 {
        Seq::empty()
    } else {
        algorithm_bytes(algorithms.drop_last()) + le16(algorithms.last().code())
    }
}

/// The context that offers signing algorithms.
pub open spec fn signing_capabilities_of(algorithms: Seq<SigningAlgorithm>) -> Result<
    NegotiateContextView,
    ClientError,
> {
    if algorithms.len() > u16::MAX {
        Err(ClientError::Protocol("too many SMB signing algorithms"))
    } else if algorithms.len() == 0 {
        Err(ClientError::Protocol("SMB signing capabilities must contain an algorithm"))
    } else if algorithms.contains(SigningAlgorithm::AesGmac) {
        Err(ClientError::Protocol("AES-GMAC must not be advertised until it is implemented"))
    } else {
        Ok(
            NegotiateContextView {
                context_type: CONTEXT_SIGNING_CAPABILITIES,
                data: le16(algorithms.len() as u16) + algorithm_bytes(algorithms),
            },
        )
    }
}

/// Builds the context that offers signing algorithms.
pub fn signing_capabilities_context(algorithms: &Vec<SigningAlgorithm>) -> (r: Result<
    NegotiateContext,
    ClientError,
>)
    ensures
        match signing_capabilities_of(algorithms@) {
            Err(e) => r == Err::<NegotiateContext, ClientError>(e),
            Ok(context) => r is Ok && r->Ok_0@ == context,
        },
{
    if algorithms.len() > u16::MAX as usize {
        return Err(ClientError::Protocol("too many SMB signing algorithms"));
    }
    if algorithms.len() == 0 {
        return Err(ClientError::Protocol("SMB signing capabilities must contain an algorithm"));
    }
    if algorithms_contain(algorithms, SigningAlgorithm::AesGmac) {
        return Err(
            ClientError::Protocol("AES-GMAC must not be advertised until it is implemented"),
        );
    }
    let mut data: Vec<u8> = Vec::new();
    put_u16(&mut data, algorithms.len() as u16);
    let ghost count = le16(algorithms@.len() as u16);
    assert(data@ =~= count + algorithm_bytes(algorithms@.take(0)));
    let mut i: usize = 0;
    while i < algorithms.len()
        invariant
            i <= algorithms@.len(),
            data@ == count + algorithm_bytes(algorithms@.take(i as int)),
        decreases algorithms@.len() - i,
    {
        put_u16(&mut data, algorithms[i].to_u16());
        proof {
            let next = algorithms@.take(i + 1);
            assert(next.drop_last() =~= algorithms@.take(i as int));
            assert(data@ =~= count + algorithm_bytes(next));
        }
        i = i + 1;
    }
    assert(algorithms@.take(i as int) =~= algorithms@);
    Ok(NegotiateContext { context_type: CONTEXT_SIGNING_CAPABILITIES, data })
}

/// The contexts that a client offers: none before SMB 3.1.1.
pub open spec fn offered_contexts_of(config: NegotiateConfig) -> Result<
    Seq<NegotiateContextView>,
    ClientError,
> {
    if !config.dialects@.contains(Dialect::Smb311) {
        Ok(Seq::empty())
    } else if config.preauth_salt@.len() == 0 {
        Err(ClientError::Protocol("SMB 3.1.1 negotiation requires a non-empty preauth salt"))
    } else if config.preauth_salt@.len() > u16::MAX {
        Err(ClientError::Wire(WireError::TooLong("the preauthentication salt")))
    } else if config.signing_algorithms@.len() == 0 {
        Ok(seq![preauth_sha512_view(config.preauth_salt@)])
    } else {
        match signing_capabilities_of(config.signing_algorithms@) {
            Err(e) => Err(e),
            Ok(signing) => Ok(seq![preauth_sha512_view(config.preauth_salt@), signing]),
        }
    }
}

/// The request that a client sends.
pub open spec fn offered_request_of(config: NegotiateConfig) -> Result<
    NegotiateRequestView,
    ClientError,
> {
    match offered_contexts_of(config) {
        Err(e) => Err(e),
        Ok(contexts) => Ok(
            NegotiateRequestView {
                security_mode: config.security_mode,
                capabilities: config.capabilities,
                client_guid: config.client_guid@,
                dialects: config.dialects@,
                contexts,
            },
        ),
    }
}

impl NegotiateConfig {
    /// Whether every dialect, signing, large transfers and the implemented signing algorithms are
    /// offered.
    pub open spec fn is_modern(self) -> bool {
        &&& self.dialects@ == seq![
            Dialect::Smb202,
            Dialect::Smb210,
            Dialect::Smb300,
            Dialect::Smb302,
            Dialect::Smb311,
        ]
        &&& self.security_mode == SECURITY_MODE_SIGNING_ENABLED
        &&& self.capabilities == CAPABILITY_LARGE_MTU
        &&& self.signing_algorithms@ == seq![
            SigningAlgorithm::AesCmac,
            SigningAlgorithm::HmacSha256,
        ]
        &&& self.credit_request == 64
    }

    /// Offers every dialect, signing, large transfers and the implemented signing algorithms.
    pub fn modern(client_guid: [u8; 16], preauth_salt: Vec<u8>) -> (r: Self)
        ensures
            r.is_modern(),
            r.client_guid == client_guid,
            r.preauth_salt == preauth_salt,
    {
        let dialects: Vec<Dialect> = vec![
            Dialect::Smb202,
            Dialect::Smb210,
            Dialect::Smb300,
            Dialect::Smb302,
            Dialect::Smb311,
        ];
        let signing_algorithms: Vec<SigningAlgorithm> = vec![
            SigningAlgorithm::AesCmac,
            SigningAlgorithm::HmacSha256,
        ];
        assert(dialects@ =~= seq![
            Dialect::Smb202,
            Dialect::Smb210,
            Dialect::Smb300,
            Dialect::Smb302,
            Dialect::Smb311,
        ]);
        assert(signing_algorithms@ =~= seq![
            SigningAlgorithm::AesCmac,
            SigningAlgorithm::HmacSha256,
        ]);
        NegotiateConfig {
            dialects,
            security_mode: SECURITY_MODE_SIGNING_ENABLED,
            capabilities: CAPABILITY_LARGE_MTU,
            client_guid,
            preauth_salt,
            signing_algorithms,
            credit_request: 64,
        }
    }

    /// The request that this configuration sends.
    pub fn request(&self) -> (r: Result<NegotiateRequest, ClientError>)
        ensures
            match offered_request_of(*self) {
                Err(e) => r == Err::<NegotiateRequest, ClientError>(e),
                Ok(request) => r is Ok && r->Ok_0@ == request,
            },
    {
        let mut contexts: Vec<NegotiateContext> = Vec::new();
        assert(context_views(contexts@) =~= Seq::empty());
        if dialects_contain(&self.dialects, Dialect::Smb311) {
            if self.preauth_salt.len() == 0 {
                return Err(
                    ClientError::Protocol(
                        "SMB 3.1.1 negotiation requires a non-empty preauth salt",
                    ),
                );
            }
            let preauth = from_wire(
                NegotiateContext::preauth_sha512(copy_bytes(&self.preauth_salt)),
            )?;
            contexts.push(preauth);
            assert(context_views(contexts@) =~= seq![preauth@]);
            if self.signing_algorithms.len() > 0 {
                let signing = signing_capabilities_context(&self.signing_algorithms)?;
                contexts.push(signing);
                assert(context_views(contexts@) =~= seq![preauth@, signing@]);
            }
        }
        let mut dialects: Vec<Dialect> = Vec::new();
        let mut i: usize = 0;
        while i < self.dialects.len()
            invariant
                i <= self.dialects@.len(),
                dialects@ == self.dialects@.take(i as int),
            decreases self.dialects@.len() - i,
        {
            dialects.push(self.dialects[i]);
            i = i + 1;
            assert(dialects@ =~= self.dialects@.take(i as int));
        }
        assert(dialects@ =~= self.dialects@);
        Ok(
            NegotiateRequest {
                security_mode: self.security_mode,
                capabilities: self.capabilities,
                client_guid: self.client_guid,
                dialects,
                contexts,
            },
        )
    }
}

/// The data of the contexts of one type, in order.
pub open spec fn data_of_type(contexts: Seq<NegotiateContextView>, context_type: u16) -> Seq<
    Seq<u8>,
>
    decreases contexts.len(),
{
    if contexts.len() == 0 {
        Seq::empty()
    } else {
        let before = data_of_type(contexts.drop_last(), context_type);
        if contexts.last().context_type == context_type {
            before.push(contexts.last().data)
        } else {
            before
        }
    }
}

/// How many contexts have one type, and where the first stands.
fn find_context(contexts: &[NegotiateContext], context_type: u16) -> (r: (usize, usize))
    ensures
        r.0 == data_of_type(context_views(contexts@), context_type).len(),
        r.0 > 0 ==> r.1 < contexts@.len() && contexts@[r.1 as int].data@ == data_of_type(
            context_views(contexts@),
            context_type,
        )[0],
{
    let ghost views = context_views(contexts@);
    let mut count: usize = 0;
    let mut first: usize = 0;
    let mut i: usize = 0;
    while i < contexts.len()
        invariant
            i <= contexts@.len(),
            views == context_views(contexts@),
            count <= i,
            count == data_of_type(views.take(i as int), context_type).len(),
            count > 0 ==> first < i && contexts@[first as int].data@ == data_of_type(
                views.take(i as int),
                context_type,
            )[0],
        decreases contexts@.len() - i,
    {
        proof {
            let next = views.take(i + 1);
            assert(next.drop_last() =~= views.take(i as int));
            assert(next.last() == contexts@[i as int]@);
        }
        if contexts[i].context_type == context_type {
            if count == 0 {
                first = i;
            }
            count = count + 1;
        }
        i = i + 1;
    }
    assert(views.take(i as int) =~= views);
    (count, first)
}

/// The hash algorithm at a position of a preauthentication context.
pub open spec fn preauth_algorithm_at(data: Seq<u8>, i: int) -> u16 {
    u16_at(data, 4 + 2 * i)
}

/// Why the contexts of an SMB 3.1.1 response do not select SHA-512, if they do not.
pub open spec fn preauth_context_error(contexts: Seq<NegotiateContextView>) -> Option<ClientError> {
    let matching = data_of_type(contexts, CONTEXT_PREAUTH_INTEGRITY_CAPABILITIES);
    let data = matching[0];
    if matching.len() == 0 {
        Some(
            ClientError::Protocol("SMB 3.1.1 response omitted preauth integrity capabilities"),
        )
    } else if matching.len() > 1 {
        Some(
            ClientError::Protocol(
                "SMB 3.1.1 response contains duplicate preauth integrity capabilities",
            ),
        )
    } else if data.len() < 6 {
        Some(ClientError::Protocol("SMB 3.1.1 preauth integrity context is truncated"))
    } else if u16_at(data, 0) == 0 {
        Some(ClientError::Protocol("SMB 3.1.1 server returned no preauth hash algorithm"))
    } else if data.len() < 4 + 2 * u16_at(data, 0) + u16_at(data, 2) {
        Some(ClientError::Protocol("SMB 3.1.1 preauth integrity context length is invalid"))
    } else if !(exists|i: int|
        0 <= i < u16_at(data, 0) && #[trigger] preauth_algorithm_at(data, i)
            == PREAUTH_HASH_SHA_512) {
        Some(
            ClientError::Protocol("server did not offer SHA-512 for SMB 3.1.1 preauth integrity"),
        )
    } else {
        None
    }
}

/// Checks that the contexts of an SMB 3.1.1 response select SHA-512.
pub fn validate_server_preauth_sha512(contexts: &[NegotiateContext]) -> (r: Result<(), ClientError>)
    ensures
        match preauth_context_error(context_views(contexts@)) {
            Some(e) => r == Err::<(), ClientError>(e),
            None => r is Ok,
        },
{
    let (count, first) = find_context(contexts, CONTEXT_PREAUTH_INTEGRITY_CAPABILITIES);
    if count == 0 {
        return Err(
            ClientError::Protocol("SMB 3.1.1 response omitted preauth integrity capabilities"),
        );
    }
    if count > 1 {
        return Err(
            ClientError::Protocol(
                "SMB 3.1.1 response contains duplicate preauth integrity capabilities",
            ),
        );
    }
    let data = &contexts[first].data;
    if data.len() < 6 {
        return Err(ClientError::Protocol("SMB 3.1.1 preauth integrity context is truncated"));
    }
    let algorithm_count: usize = get_u16(data, 0) as usize;
    let salt_len: usize = get_u16(data, 2) as usize;
    if algorithm_count == 0 {
        return Err(ClientError::Protocol("SMB 3.1.1 server returned no preauth hash algorithm"));
    }
    if data.len() < 4 + 2 * algorithm_count + salt_len {
        return Err(
            ClientError::Protocol("SMB 3.1.1 preauth integrity context length is invalid"),
        );
    }
    let mut i: usize = 0;
    while i < algorithm_count
        invariant
            i <= algorithm_count <= u16::MAX,
            4 + 2 * algorithm_count <= data@.len(),
            algorithm_count == u16_at(data@, 0),
            forall|j: int|
                0 <= j < i ==> #[trigger] preauth_algorithm_at(data@, j) != PREAUTH_HASH_SHA_512,
            preauth_context_error(context_views(contexts@)) == if exists|j: int|
                0 <= j < u16_at(data@, 0) && #[trigger] preauth_algorithm_at(data@, j)
                    == PREAUTH_HASH_SHA_512 {
                None::<ClientError>
            } else {
                Some(
                    ClientError::Protocol(
                        "server did not offer SHA-512 for SMB 3.1.1 preauth integrity",
                    ),
                )
            },
        decreases algorithm_count - i,
    {
        if get_u16(data, 4 + 2 * i) == PREAUTH_HASH_SHA_512 {
            assert(preauth_algorithm_at(data@, i as int) == PREAUTH_HASH_SHA_512);
            return Ok(());
        }
        i = i + 1;
    }
    Err(ClientError::Protocol("server did not offer SHA-512 for SMB 3.1.1 preauth integrity"))
}

/// The signing algorithm that a response selects. Before SMB 3.1.1 the dialect fixes it; under it a
/// server that says nothing selects AES-CMAC.
pub open spec fn selected_algorithm_of(
    dialect: Dialect,
    contexts: Seq<NegotiateContextView>,
    offered: Seq<SigningAlgorithm>,
) -> Result<SigningAlgorithm, ClientError> {
    let matching = data_of_type(contexts, CONTEXT_SIGNING_CAPABILITIES);
    let data = matching[0];
    match dialect {
        Dialect::Smb202 | Dialect::Smb210 => Ok(SigningAlgorithm::HmacSha256),
        Dialect::Smb300 | Dialect::Smb302 => Ok(SigningAlgorithm::AesCmac),
        Dialect::Smb311 => if matching.len() == 0 {
            Ok(SigningAlgorithm::AesCmac)
        } else if matching.len() > 1 {
            Err(
                ClientError::Protocol("SMB 3.1.1 response contains duplicate signing capabilities"),
            )
        } else if data.len() < 4 {
            Err(ClientError::Protocol("SMB 3.1.1 signing capabilities are truncated"))
        } else if u16_at(data, 0) != 1 {
            Err(
                ClientError::Protocol("SMB 3.1.1 server must select exactly one signing algorithm"),
            )
        } else {
            match SigningAlgorithm::with_code(u16_at(data, 2)) {
                Err(e) => Err(e),
                Ok(selected) => if offered.contains(selected) {
                    Ok(selected)
                } else {
                    Err(
                        ClientError::Protocol(
                            "server selected an SMB signing algorithm that was not offered",
                        ),
                    )
                },
            }
        },
    }
}

/// The signing algorithm that a response selects.
pub fn select_signing_algorithm(
    dialect: Dialect,
    contexts: &[NegotiateContext],
    offered: &Vec<SigningAlgorithm>,
) -> (r: Result<SigningAlgorithm, ClientError>)
    ensures
        r == selected_algorithm_of(dialect, context_views(contexts@), offered@),
{
    match dialect {
        Dialect::Smb202 | Dialect::Smb210 => {
            return Ok(SigningAlgorithm::HmacSha256);
        },
        Dialect::Smb300 | Dialect::Smb302 => {
            return Ok(SigningAlgorithm::AesCmac);
        },
        Dialect::Smb311 => {},
    }
    let (count, first) = find_context(contexts, CONTEXT_SIGNING_CAPABILITIES);
    if count == 0 {
        return Ok(SigningAlgorithm::AesCmac);
    }
    if count > 1 {
        return Err(
            ClientError::Protocol("SMB 3.1.1 response contains duplicate signing capabilities"),
        );
    }
    let data = &contexts[first].data;
    if data.len() < 4 {
        return Err(ClientError::Protocol("SMB 3.1.1 signing capabilities are truncated"));
    }
    if get_u16(data, 0) != 1 {
        return Err(
            ClientError::Protocol("SMB 3.1.1 server must select exactly one signing algorithm"),
        );
    }
    let selected = SigningAlgorithm::from_u16(get_u16(data, 2))?;
    if !algorithms_contain(offered, selected) {
        return Err(
            ClientError::Protocol("server selected an SMB signing algorithm that was not offered"),
        );
    }
    Ok(selected)
}

/// A NEGOTIATE request that was sent.
#[derive(Debug, Clone, Copy)]
pub struct PendingNegotiate {
    pub message_id: u64,
    /// The hash over the request, where SMB 3.1.1 was offered.
    pub preauth: Option<PreauthIntegrityHash>,
}

/// Why no NEGOTIATE request can be sent, if none can.
pub open spec fn negotiate_begin_error<T>(
    connection: Connection<T>,
    config: NegotiateConfig,
) -> Option<ClientError> {
    if connection.negotiated is Some {
        Some(ClientError::Protocol("SMB connection is already negotiated"))
    } else {
        match offered_request_of(config) {
            Err(e) => Some(e),
            Ok(request) => if !connection.message_ids.can_allocate(0) {
                Some(ClientError::Protocol("SMB MessageId space exhausted"))
            } else {
                match negotiate_request_error(request) {
                    Some(e) => Some(ClientError::Wire(e)),
                    None => None,
                }
            },
        }
    }
}

/// Whether a NEGOTIATE request consumes a MessageId.
pub open spec fn negotiate_allocates<T>(connection: Connection<T>, config: NegotiateConfig) -> bool {
    connection.negotiated is None && offered_request_of(config) is Ok
        && connection.message_ids.can_allocate(0)
}

/// Why a NEGOTIATE response is not accepted, if it is not.
pub open spec fn negotiate_finish_error(
    config: NegotiateConfig,
    pending: PendingNegotiate,
    m: Seq<u8>,
) -> Option<ClientError> {
    if header_error(m) is Some {
        Some(ClientError::Wire(header_error(m)->0))
    } else if header_of(m).message_id != pending.message_id {
        Some(ClientError::Protocol("NEGOTIATE response MessageId does not match request"))
    } else if status_error(
        header_of(m).status,
        "NEGOTIATE response used request header form",
    ) is Some {
        status_error(header_of(m).status, "NEGOTIATE response used request header form")
    } else if negotiate_response_error(m) is Some {
        Some(ClientError::Wire(negotiate_response_error(m)->0))
    } else {
        negotiate_selection_error(config, pending, m)
    }
}

/// Why what a NEGOTIATE response selects is not accepted, if it is not.
pub open spec fn negotiate_selection_error(
    config: NegotiateConfig,
    pending: PendingNegotiate,
    m: Seq<u8>,
) -> Option<ClientError> {
    let dialect = Dialect::with_code(u16_at(m, 68))->0;
    let contexts = negotiate_response_contexts(m)->0;
    if !config.dialects@.contains(dialect) {
        Some(ClientError::Protocol("server selected a dialect that was not offered"))
    } else if dialect == Dialect::Smb311 && preauth_context_error(contexts) is Some {
        preauth_context_error(contexts)
    } else if dialect == Dialect::Smb311 && pending.preauth is None {
        Some(ClientError::Protocol("SMB 3.1.1 selected without a client preauth hash"))
    } else if selected_algorithm_of(dialect, contexts, config.signing_algorithms@) is Err {
        Some(selected_algorithm_of(dialect, contexts, config.signing_algorithms@)->Err_0)
    } else if u32_at(m, 92) == 0 || u32_at(m, 96) == 0 || u32_at(m, 100) == 0 {
        Some(ClientError::Protocol("server negotiated a zero SMB operation size limit"))
    } else if header_of(m).credits == 0 {
        Some(ClientError::Protocol("server granted zero credits in NEGOTIATE response"))
    } else {
        None
    }
}

/// Whether parameters are those that an accepted NEGOTIATE response selects.
pub open spec fn negotiated_by(
    parameters: NegotiatedParameters,
    config: NegotiateConfig,
    m: Seq<u8>,
) -> bool {
    let dialect = Dialect::with_code(u16_at(m, 68))->0;
    &&& parameters.dialect == dialect
    &&& parameters.security_mode == u16_at(m, 66)
    &&& parameters.capabilities == u32_at(m, 88)
    &&& parameters.server_guid@ == m.subrange(72, 88)
    &&& parameters.max_transact_size == u32_at(m, 92)
    &&& parameters.max_read_size == u32_at(m, 96)
    &&& parameters.max_write_size == u32_at(m, 100)
    &&& parameters.initial_credits == header_of(m).credits
    &&& parameters.signing_algorithm == selected_algorithm_of(
        dialect,
        negotiate_response_contexts(m)->0,
        config.signing_algorithms@,
    )->Ok_0
    &&& parameters.require_signing == (u16_at(m, 66) & SECURITY_MODE_SIGNING_REQUIRED != 0
        || config.security_mode & SECURITY_MODE_SIGNING_REQUIRED != 0)
}

impl<T> Connection<T> {
    /// Builds the NEGOTIATE request that opens this connection.
    pub fn begin_negotiate(&mut self, config: &NegotiateConfig) -> (r: Result<
        (Vec<u8>, PendingNegotiate),
        ClientError,
    >)
        ensures
            match negotiate_begin_error(*old(self), *config) {
                Some(e) => r == Err::<(Vec<u8>, PendingNegotiate), ClientError>(e),
                None => r is Ok && {
                    let message = r->Ok_0.0@;
                    let pending = r->Ok_0.1;
                    &&& message == negotiate_request_bytes(
                        offered_request_of(*config)->Ok_0,
                        old(self).message_ids.next,
                        config.credit_request,
                    )
                    &&& pending.message_id == old(self).message_ids.next
                    &&& preauth_view(pending.preauth) == if config.dialects@.contains(
                        Dialect::Smb311,
                    ) {
                        Some(preauth_next(crate::bytes::zeros(64), message))
                    } else {
                        None
                    }
                },
            },
            r is Ok ==> negotiate_sent(r->Ok_0.0@, old(self).message_ids.next, *config),
            *final(self) == (Connection {
                message_ids: if negotiate_allocates(*old(self), *config) {
                    old(self).message_ids.advanced(0)
                } else {
                    old(self).message_ids
                },
                ..*old(self)
            }),
    {
        if self.negotiated.is_some() {
            return Err(ClientError::Protocol("SMB connection is already negotiated"));
        }
        let request = config.request()?;
        let message_id: u64 = self.message_ids.allocate(0)?;
        let message = from_wire(request.encode_message(message_id, config.credit_request))?;
        proof {
            law_negotiate_message(*config, message_id);
        }
        let preauth = if dialects_contain(&config.dialects, Dialect::Smb311) {
            let mut hash = PreauthIntegrityHash::new();
            hash.update(&message);
            Some(hash)
        } else {
            None
        };
        Ok((message, PendingNegotiate { message_id, preauth }))
    }

    /// Takes the response to a NEGOTIATE request. Nothing is stored unless all of it is accepted.
    pub fn finish_negotiate(
        &mut self,
        config: &NegotiateConfig,
        pending: PendingNegotiate,
        response_message: &[u8],
    ) -> (r: Result<NegotiatedParameters, ClientError>)
        ensures
            match negotiate_finish_error(*config, pending, response_message@) {
                Some(e) => r == Err::<NegotiatedParameters, ClientError>(e) && *final(self)
                    == *old(self),
                None => r is Ok && {
                    let parameters = r->Ok_0;
                    &&& negotiated_by(parameters, *config, response_message@)
                    &&& parameters_stand(parameters, *config, response_message@)
                    &&& final(self).negotiated == Some(parameters)
                    &&& preauth_view(final(self).preauth_hash) == if parameters.dialect
                        == Dialect::Smb311 {
                        Some(preauth_next(pending.preauth->0@, response_message@))
                    } else {
                        None
                    }
                    &&& final(self).credits == Some(
                        CreditManager {
                            available: parameters.initial_credits as u32,
                            target: DEFAULT_TARGET_CREDITS,
                        },
                    )
                    &&& final(self).message_ids == old(self).message_ids
                    &&& final(self).transport == old(self).transport
                    &&& config.dialects@.contains(parameters.dialect)
                    &&& parameters.max_read_size > 0
                    &&& parameters.initial_credits > 0
                },
            },
    {
        let header = from_wire(Smb2Header::decode(response_message))?;
        if header.message_id != pending.message_id {
            return Err(
                ClientError::Protocol("NEGOTIATE response MessageId does not match request"),
            );
        }
        check_status(header.status, "NEGOTIATE response used request header form")?;
        let response = from_wire(NegotiateResponse::decode_message(response_message))?;
        if !dialects_contain(&config.dialects, response.dialect) {
            return Err(ClientError::Protocol("server selected a dialect that was not offered"));
        }
        let preauth_hash = if response.dialect == Dialect::Smb311 {
            validate_server_preauth_sha512(&response.contexts)?;
            match pending.preauth {
                None => {
                    return Err(
                        ClientError::Protocol("SMB 3.1.1 selected without a client preauth hash"),
                    );
                },
                Some(hash) => {
                    let mut hash = hash;
                    hash.update(response_message);
                    Some(hash)
                },
            }
        } else {
            None
        };
        let signing_algorithm = select_signing_algorithm(
            response.dialect,
            &response.contexts,
            &config.signing_algorithms,
        )?;
        let require_signing: bool = response.security_mode & SECURITY_MODE_SIGNING_REQUIRED != 0
            || config.security_mode & SECURITY_MODE_SIGNING_REQUIRED != 0;
        let parameters = NegotiatedParameters {
            dialect: response.dialect,
            security_mode: response.security_mode,
            capabilities: response.capabilities,
            server_guid: response.server_guid,
            max_transact_size: response.max_transact_size,
            max_read_size: response.max_read_size,
            max_write_size: response.max_write_size,
            initial_credits: response.header.credits,
            signing_algorithm,
            require_signing,
        };
        if parameters.max_transact_size == 0 || parameters.max_read_size == 0
            || parameters.max_write_size == 0 {
            return Err(ClientError::Protocol("server negotiated a zero SMB operation size limit"));
        }
        let credits = CreditManager::new(parameters.initial_credits)?;
        self.preauth_hash = preauth_hash;
        self.credits = Some(credits);
        self.negotiated = Some(parameters);
        proof {
            law_negotiate_answer(parameters, *config, pending, response_message@);
        }
        Ok(parameters)
    }
}

} // verus!
