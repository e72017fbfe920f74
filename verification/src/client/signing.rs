//! Message signing.

use crate::auth::secret::SecretBytes;
use crate::bytes::be32;
use crate::bytes::copy_16;
use crate::bytes::copy_bytes;
use crate::bytes::get_u32;
use crate::bytes::law_u32_roundtrip;
use crate::bytes::le32;
use crate::bytes::lemma_overwrite_elsewhere;
use crate::bytes::lemma_overwrite_has;
use crate::bytes::overwrite;
use crate::bytes::put_bytes;
use crate::bytes::put_u32;
use crate::bytes::put_u32_be;
use crate::bytes::put_u8;
use crate::bytes::u32_at;
use crate::bytes::write_at;
use crate::bytes::zeros;
use crate::client::error::ClientError;
use crate::client::preauth::PreauthIntegrityHash;
use crate::crypto::aes_cmac;
use crate::crypto::aes_cmac_of;
use crate::crypto::constant_time_eq;
use crate::crypto::hmac_sha256;
use crate::crypto::hmac_sha256_of;
use crate::laws::keys::law_signs_with;
use crate::laws::keys::signs_with;
use crate::wire::constants::FLAG_SIGNED;
use crate::wire::constants::SMB2_HEADER_SIZE;
use crate::wire::header::header_error;
use crate::wire::header::header_of;
use crate::wire::header::Smb2Header;
use crate::wire::negotiate::Dialect;
use vstd::prelude::*;

verus! {

const SIGNATURE_OFFSET: usize = 48;

const KDF_OUTPUT_BITS: u32 = 128;

/// SMB signing algorithms as assigned by SMB2_SIGNING_CAPABILITIES.
#[derive(Debug, Clone, Copy, PartialEq, Eq, Structural)]
pub enum SigningAlgorithm {
    HmacSha256,
    AesCmac,
    AesGmac,
}

impl SigningAlgorithm {
    /// The assigned number of an algorithm.
    pub open spec fn code(self) -> u16 {
        match self {
            SigningAlgorithm::HmacSha256 => 0,
            SigningAlgorithm::AesCmac => 1,
            SigningAlgorithm::AesGmac => 2,
        }
    }

    /// The algorithm with an assigned number.
    pub open spec fn with_code(code: u16) -> Result<SigningAlgorithm, ClientError> {
        if code == 0 {
            Ok(SigningAlgorithm::HmacSha256)
        } else if code == 1 {
            Ok(SigningAlgorithm::AesCmac)
        } else if code == 2 {
            Ok(SigningAlgorithm::AesGmac)
        } else {
            Err(ClientError::Protocol("unknown SMB signing algorithm"))
        }
    }

    /// The assigned number of this algorithm.
    pub fn to_u16(self) -> (r: u16)
        ensures
            r == self.code(),
    {
        match self {
            SigningAlgorithm::HmacSha256 => 0,
            SigningAlgorithm::AesCmac => 1,
            SigningAlgorithm::AesGmac => 2,
        }
    }

    /// The algorithm with this assigned number.
    pub fn from_u16(value: u16) -> (r: Result<SigningAlgorithm, ClientError>)
        ensures
            r == SigningAlgorithm::with_code(value),
    {
        match value {
            0 => Ok(SigningAlgorithm::HmacSha256),
            1 => Ok(SigningAlgorithm::AesCmac),
            2 => Ok(SigningAlgorithm::AesGmac),
            _ => Err(ClientError::Protocol("unknown SMB signing algorithm")),
        }
    }
}

/// Per-session signing state. The key is zeroized when this value is dropped.
pub struct SigningState {
    pub algorithm: SigningAlgorithm,
    pub key: SecretBytes,
}

/// A session key as a key of 16 bytes: cut off, or filled with zeros.
pub open spec fn normalized_key(key: Seq<u8>) -> Seq<u8> {
    Seq::new(
        16,
        |i: int|
            if i < key.len() {
                key[i]
            } else {
                0u8
            },
    )
}

/// NIST SP800-108 counter-mode KDF with HMAC-SHA256, r=32 and L=128.
pub open spec fn kdf_of(key: Seq<u8>, label: Seq<u8>, context: Seq<u8>) -> Seq<u8> {
    hmac_sha256_of(key, be32(1) + label + seq![0u8] + context + be32(128)).take(16)
}

/// `SMB2AESCMAC` with its final zero.
pub open spec fn smb30_label() -> Seq<u8> {
    seq![
        0x53u8,
        0x4du8,
        0x42u8,
        0x32u8,
        0x41u8,
        0x45u8,
        0x53u8,
        0x43u8,
        0x4du8,
        0x41u8,
        0x43u8,
        0u8,
    ]
}

/// `SmbSign` with its final zero.
pub open spec fn smb30_context() -> Seq<u8> {
    seq![0x53u8, 0x6du8, 0x62u8, 0x53u8, 0x69u8, 0x67u8, 0x6eu8, 0u8]
}

/// `SMBSigningKey` with its final zero.
pub open spec fn smb311_label() -> Seq<u8> {
    seq![
        0x53u8,
        0x4du8,
        0x42u8,
        0x53u8,
        0x69u8,
        0x67u8,
        0x6eu8,
        0x69u8,
        0x6eu8,
        0x67u8,
        0x4bu8,
        0x65u8,
        0x79u8,
        0u8,
    ]
}

/// The algorithm that signs under a dialect: only SMB 3.1.1 negotiates it.
pub open spec fn dialect_algorithm(dialect: Dialect, negotiated: SigningAlgorithm) -> SigningAlgorithm {
    match dialect {
        Dialect::Smb202 | Dialect::Smb210 => SigningAlgorithm::HmacSha256,
        Dialect::Smb300 | Dialect::Smb302 => SigningAlgorithm::AesCmac,
        Dialect::Smb311 => negotiated,
    }
}

/// Why no signing state can be derived, if none can.
pub open spec fn derive_error(
    dialect: Dialect,
    negotiated: SigningAlgorithm,
    preauth: Option<Seq<u8>>,
) -> Option<ClientError> {
    if dialect_algorithm(dialect, negotiated) == SigningAlgorithm::AesGmac {
        Some(ClientError::Protocol("AES-GMAC signing is not implemented yet"))
    } else if dialect == Dialect::Smb311 && preauth is None {
        Some(ClientError::Protocol("SMB 3.1.1 signing requires a preauthentication hash"))
    } else {
        None
    }
}

/// The signing key of a session.
pub open spec fn signing_key_of(
    dialect: Dialect,
    session_key: Seq<u8>,
    preauth: Option<Seq<u8>>,
) -> Seq<u8> {
    match dialect {
        Dialect::Smb202 | Dialect::Smb210 => normalized_key(session_key),
        Dialect::Smb300 | Dialect::Smb302 => kdf_of(
            normalized_key(session_key),
            smb30_label(),
            smb30_context(),
        ),
        Dialect::Smb311 => kdf_of(normalized_key(session_key), smb311_label(), preauth->0),
    }
}

/// A preauthentication hash by its bytes.
pub open spec fn preauth_view(hash: Option<PreauthIntegrityHash>) -> Option<Seq<u8>> {
    match hash {
        Some(hash) => Some(hash@),
        None => None,
    }
}

/// A borrowed preauthentication hash by its bytes.
pub open spec fn preauth_ref_view(hash: Option<&PreauthIntegrityHash>) -> Option<Seq<u8>> {
    match hash {
        Some(hash) => Some(hash@),
        None => None,
    }
}

/// The signature of a message whose signature field is zero.
pub open spec fn signature_of(algorithm: SigningAlgorithm, key: Seq<u8>, message: Seq<u8>) -> Result<
    Seq<u8>,
    ClientError,
> {
    match algorithm {
        SigningAlgorithm::HmacSha256 => Ok(hmac_sha256_of(key, message).take(16)),
        SigningAlgorithm::AesCmac => if key.len() == 16 {
            Ok(aes_cmac_of(key, message))
        } else {
            Err(ClientError::Protocol("invalid SMB AES-CMAC signing key"))
        },
        SigningAlgorithm::AesGmac => Err(
            ClientError::Protocol("AES-GMAC signing is not implemented yet"),
        ),
    }
}

/// Why a message is too short or malformed to be signed, if it is.
pub open spec fn message_error(m: Seq<u8>) -> Option<ClientError> {
    if m.len() < 64 {
        Some(ClientError::Protocol("SMB message is shorter than its header"))
    } else {
        match header_error(m) {
            Some(e) => Some(ClientError::Wire(e)),
            None => None,
        }
    }
}

/// A message with its signed flag set.
pub open spec fn with_signed_flag(m: Seq<u8>) -> Seq<u8> {
    overwrite(m, 16, le32(u32_at(m, 16) | FLAG_SIGNED))
}

/// A message with a signature field of zeros.
pub open spec fn with_blank_signature(m: Seq<u8>) -> Seq<u8> {
    overwrite(m, 48, zeros(16))
}

/// Why a message cannot be signed, if it cannot.
pub open spec fn sign_error(algorithm: SigningAlgorithm, key: Seq<u8>, m: Seq<u8>) -> Option<ClientError> {
    match message_error(m) {
        Some(e) => Some(e),
        None => match signature_of(
            algorithm,
            key,
            with_blank_signature(with_signed_flag(m)),
        ) {
            Err(e) => Some(e),
            Ok(_) => None,
        },
    }
}

/// What is left of a message that could not be signed: a malformed one stays as it is.
pub open spec fn unsigned_rest(m: Seq<u8>) -> Seq<u8> {
    if message_error(m) is Some {
        m
    } else {
        with_blank_signature(with_signed_flag(m))
    }
}

/// A message with a signature in its signature field.
pub open spec fn with_signature(m: Seq<u8>, signature: Seq<u8>) -> Seq<u8> {
    Seq::new(m.len(), |i: int| if 48 <= i < 64 { signature[i - 48] } else { m[i] })
}

/// A message with its signature.
pub open spec fn signed_message(algorithm: SigningAlgorithm, key: Seq<u8>, m: Seq<u8>) -> Seq<u8> {
    let blank = with_blank_signature(with_signed_flag(m));
    with_signature(blank, signature_of(algorithm, key, blank)->Ok_0)
}

/// Why a message does not carry a valid signature, if it does not.
pub open spec fn verify_error(algorithm: SigningAlgorithm, key: Seq<u8>, m: Seq<u8>) -> Option<ClientError> {
    match message_error(m) {
        Some(e) => Some(e),
        None => if u32_at(m, 16) & FLAG_SIGNED == 0 {
            Some(ClientError::Protocol("SMB message is not signed"))
        } else {
            match signature_of(algorithm, key, with_blank_signature(m)) {
                Err(e) => Some(e),
                Ok(expected) => if m.subrange(48, 64) != expected {
                    Some(ClientError::Protocol("SMB signature verification failed"))
                } else {
                    None
                },
            }
        },
    }
}

/// Cuts a session key off at 16 bytes, or fills it with zeros.
fn normalize_session_key(session_key: &SecretBytes) -> (r: SecretBytes)
    ensures
        r@ == normalized_key(session_key@),
{
    let key = session_key.expose();
    let mut out: Vec<u8> = Vec::new();
    let mut i: usize = 0;
    while i < 16
        invariant
            i <= 16,
            key@ == session_key@,
            out@.len() == i,
            forall|j: int| 0 <= j < i ==> out@[j] == normalized_key(session_key@)[j],
        decreases 16 - i,
    {
        if i < key.len() {
            out.push(key[i]);
        } else {
            out.push(0);
        }
        i = i + 1;
    }
    assert(out@ =~= normalized_key(session_key@));
    SecretBytes::new(out)
}

/// NIST SP800-108 counter-mode KDF with HMAC-SHA256, r=32 and L=128.
///
/// SMB passes null-terminated labels/contexts for 3.0/3.0.2. The KDF itself also inserts the
/// required zero separator between label and context.
fn sp800_108_kdf_128(key: &[u8], label: &[u8], context: &[u8]) -> (r: Result<
    SecretBytes,
    ClientError,
>)
    ensures
        r is Ok,
        r->Ok_0@ == kdf_of(key@, label@, context@),
        r->Ok_0@.len() == 16,
{
    let mut input: Vec<u8> = Vec::new();
    put_u32_be(&mut input, 1);
    assert(input@ =~= be32(1));
    put_bytes(&mut input, label);
    put_u8(&mut input, 0);
    put_bytes(&mut input, context);
    put_u32_be(&mut input, KDF_OUTPUT_BITS);
    match hmac_sha256(key, &input) {
        Some(digest) => {
            let output = copy_16(&digest, 0);
            assert(output@ =~= digest@.take(16));
            Ok(SecretBytes::new(copy_bytes(&output)))
        },
        None => Err(ClientError::Protocol("invalid SMB key-derivation key")),
    }
}

impl SigningState {
    /// Derives the signing state of a session.
    pub fn derive(
        dialect: Dialect,
        negotiated_algorithm: SigningAlgorithm,
        session_key: &SecretBytes,
        preauth_hash: Option<&PreauthIntegrityHash>,
    ) -> (r: Result<Self, ClientError>)
        ensures
            match derive_error(dialect, negotiated_algorithm, preauth_ref_view(preauth_hash)) {
                Some(e) => r == Err::<Self, ClientError>(e),
                None => r is Ok && r->Ok_0.algorithm == dialect_algorithm(
                    dialect,
                    negotiated_algorithm,
                ) && r->Ok_0.key@ == signing_key_of(
                    dialect,
                    session_key@,
                    preauth_ref_view(preauth_hash),
                ) && r->Ok_0.key@.len() == 16,
            },
            r is Ok ==> signs_with(
                r->Ok_0.key@,
                dialect,
                session_key@,
                preauth_ref_view(preauth_hash),
            ),
    {
        let normalized = normalize_session_key(session_key);
        let algorithm = match dialect {
            Dialect::Smb202 | Dialect::Smb210 => SigningAlgorithm::HmacSha256,
            Dialect::Smb300 | Dialect::Smb302 => SigningAlgorithm::AesCmac,
            Dialect::Smb311 => negotiated_algorithm,
        };
        if algorithm == SigningAlgorithm::AesGmac {
            return Err(ClientError::Protocol("AES-GMAC signing is not implemented yet"));
        }
        let key = match dialect {
            Dialect::Smb202 | Dialect::Smb210 => normalized,
            Dialect::Smb300 | Dialect::Smb302 => {
                let label: [u8; 12] = [
                    0x53,
                    0x4d,
                    0x42,
                    0x32,
                    0x41,
                    0x45,
                    0x53,
                    0x43,
                    0x4d,
                    0x41,
                    0x43,
                    0,
                ];
                let context: [u8; 8] = [0x53, 0x6d, 0x62, 0x53, 0x69, 0x67, 0x6e, 0];
                assert(label@ =~= smb30_label());
                assert(context@ =~= smb30_context());
                sp800_108_kdf_128(normalized.expose(), &label, &context)?
            },
            Dialect::Smb311 => match preauth_hash {
                None => {
                    return Err(
                        ClientError::Protocol(
                            "SMB 3.1.1 signing requires a preauthentication hash",
                        ),
                    );
                },
                Some(preauth) => {
                    let label: [u8; 14] = [
                        0x53,
                        0x4d,
                        0x42,
                        0x53,
                        0x69,
                        0x67,
                        0x6e,
                        0x69,
                        0x6e,
                        0x67,
                        0x4b,
                        0x65,
                        0x79,
                        0,
                    ];
                    assert(label@ =~= smb311_label());
                    sp800_108_kdf_128(normalized.expose(), &label, preauth.current())?
                },
            },
        };
        proof {
            law_signs_with(dialect, session_key@, preauth_ref_view(preauth_hash));
        }
        Ok(SigningState { algorithm, key })
    }

    /// The algorithm that signs.
    pub fn algorithm(&self) -> (r: SigningAlgorithm)
        ensures
            r == self.algorithm,
    {
        self.algorithm
    }

    /// The signature of a message whose signature field is zero.
    fn compute_signature(&self, message: &[u8]) -> (r: Result<[u8; 16], ClientError>)
        ensures
            match signature_of(self.algorithm, self.key@, message@) {
                Err(e) => r == Err::<[u8; 16], ClientError>(e),
                Ok(signature) => r is Ok && r->Ok_0@ == signature,
            },
    {
        match self.algorithm {
            SigningAlgorithm::HmacSha256 => match hmac_sha256(self.key.expose(), message) {
                Some(digest) => {
                    let signature = copy_16(&digest, 0);
                    assert(signature@ =~= digest@.take(16));
                    Ok(signature)
                },
                None => Err(ClientError::Protocol("invalid SMB HMAC signing key")),
            },
            SigningAlgorithm::AesCmac => match aes_cmac(self.key.expose(), message) {
                Some(signature) => Ok(signature),
                None => Err(ClientError::Protocol("invalid SMB AES-CMAC signing key")),
            },
            SigningAlgorithm::AesGmac => Err(
                ClientError::Protocol("AES-GMAC signing is not implemented yet"),
            ),
        }
    }

    /// Signs a message in place: only the signed flag and the signature field change.
    pub fn sign(&self, message: &mut Vec<u8>) -> (r: Result<(), ClientError>)
        ensures
            match sign_error(self.algorithm, self.key@, old(message)@) {
                Some(e) => r == Err::<(), ClientError>(e) && final(message)@ == unsigned_rest(
                    old(message)@,
                ),
                None => r is Ok && final(message)@ == signed_message(self.algorithm, self.key@, old(message)@),
            },
            final(message)@.len() == old(message)@.len(),
            // Only the flags and the signature are touched.
            forall|i: int|
                0 <= i < old(message)@.len() && !(16 <= i < 20) && !(48 <= i < 64)
                    ==> #[trigger] final(message)@[i] == old(message)@[i],
            // What was signed is accepted, and signing it again changes nothing.
            r is Ok ==> verify_error(self.algorithm, self.key@, final(message)@) is None,
            r is Ok ==> signed_message(self.algorithm, self.key@, final(message)@) == final(message)@,
    {
        ensure_smb2_message(message)?;
        let flags: u32 = get_u32(message, 16) | FLAG_SIGNED;
        let mut flag_bytes: Vec<u8> = Vec::new();
        put_u32(&mut flag_bytes, flags);
        assert(flag_bytes@ =~= le32(flags));
        let blank: [u8; 16] = [0u8; 16];
        assert(blank@ =~= zeros(16));
        proof {
            crate::bytes::lemma_le32_len(flags);
        }
        write_at(message, 16, &flag_bytes);
        write_at(message, SIGNATURE_OFFSET, &blank);
        let signature = self.compute_signature(message)?;
        let ghost blanked = message@;
        write_at(message, SIGNATURE_OFFSET, &signature);
        proof {
            assert(overwrite(blanked, 48, signature@) =~= with_signature(blanked, signature@));
            lemma_signed(self.algorithm, self.key@, old(message)@, signature@);
        }
        Ok(())
    }

    /// Verifies the signature of a message.
    pub fn verify(&self, message: &[u8]) -> (r: Result<(), ClientError>)
        ensures
            match verify_error(self.algorithm, self.key@, message@) {
                Some(e) => r == Err::<(), ClientError>(e),
                None => r is Ok,
            },
    {
        let header = ensure_smb2_message(message)?;
        if header.flags & FLAG_SIGNED == 0 {
            return Err(ClientError::Protocol("SMB message is not signed"));
        }
        let received = copy_16(message, SIGNATURE_OFFSET);
        let mut unsigned = copy_bytes(message);
        let blank: [u8; 16] = [0u8; 16];
        assert(blank@ =~= zeros(16));
        write_at(&mut unsigned, SIGNATURE_OFFSET, &blank);
        let expected = self.compute_signature(&unsigned)?;
        if !constant_time_eq(&received, &expected) {
            return Err(ClientError::Protocol("SMB signature verification failed"));
        }
        Ok(())
    }
}

/// What was signed is accepted, and signing it again changes nothing.
proof fn lemma_signed(algorithm: SigningAlgorithm, key: Seq<u8>, m: Seq<u8>, signature: Seq<u8>)
    requires
        sign_error(algorithm, key, m) is None,
        signature == signature_of(
            algorithm,
            key,
            with_blank_signature(with_signed_flag(m)),
        )->Ok_0,
        signature.len() == 16,
    ensures
        verify_error(algorithm, key, signed_message(algorithm, key, m)) is None,
        signed_message(algorithm, key, signed_message(algorithm, key, m)) == signed_message(algorithm, key, m),
{
    let old_flags = u32_at(m, 16);
    let flags = old_flags | FLAG_SIGNED;
    crate::bytes::lemma_le32_len(flags);
    let flagged = with_signed_flag(m);
    let blank = with_blank_signature(flagged);
    let signed = signed_message(algorithm, key, m);
    assert(signed =~= overwrite(blank, 48, signature));
    // The header reads as before, but for the flag.
    lemma_overwrite_elsewhere(m, 16, le32(flags), 4);
    lemma_overwrite_elsewhere(flagged, 48, zeros(16), 4);
    lemma_overwrite_elsewhere(blank, 48, signature, 4);
    lemma_overwrite_elsewhere(m, 16, le32(flags), 12);
    lemma_overwrite_elsewhere(flagged, 48, zeros(16), 12);
    lemma_overwrite_elsewhere(blank, 48, signature, 12);
    assert(signed.take(4) =~= m.take(4));
    assert(message_error(signed) is None);
    lemma_overwrite_has(m, 16, le32(flags));
    law_u32_roundtrip(flagged, 16, flags);
    lemma_overwrite_elsewhere(flagged, 48, zeros(16), 16);
    lemma_overwrite_elsewhere(blank, 48, signature, 16);
    assert(u32_at(signed, 16) == flags);
    assert((old_flags | 8) & 8 != 0 && (old_flags | 8) | 8 == old_flags | 8) by (bit_vector);
    // Blanking the signature leads back to what was signed.
    assert(with_blank_signature(signed) =~= blank);
    assert(signed.subrange(48, 64) =~= signature);
    // The flag is already set.
    assert(with_signed_flag(signed) =~= signed) by {
        lemma_overwrite_has(m, 16, le32(flags));
        assert(flagged.subrange(16, 20) =~= le32(flags));
        assert forall|i: int| 0 <= i < 4 implies signed[16 + i] == le32(flags)[i] by {
            assert(flagged[16 + i] == flagged.subrange(16, 20)[i]);
        }
    }
}

/// Checks that a message holds a header and decodes it.
fn ensure_smb2_message(message: &[u8]) -> (r: Result<Smb2Header, ClientError>)
    ensures
        match message_error(message@) {
            Some(e) => r == Err::<Smb2Header, ClientError>(e),
            None => r == Ok::<Smb2Header, ClientError>(header_of(message@)) && message@.len()
                >= 64,
        },
{
    if message.len() < SMB2_HEADER_SIZE {
        return Err(ClientError::Protocol("SMB message is shorter than its header"));
    }
    match Smb2Header::decode(message) {
        Ok(header) => Ok(header),
        Err(e) => Err(ClientError::Wire(e)),
    }
}

} // verus!
