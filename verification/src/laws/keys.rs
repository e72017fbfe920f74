//! What the signing keys and signatures are computed from, byte for byte.

use crate::bytes::be32;
use crate::bytes::u32_at;
use crate::client::error::ClientError;
use crate::client::preauth::preauth_of;
use crate::client::signing::derive_error;
use crate::client::signing::dialect_algorithm;
use crate::client::signing::normalized_key;
use crate::client::signing::sign_error;
use crate::client::signing::signature_of;
use crate::client::signing::signed_message;
use crate::client::signing::signing_key_of;
use crate::client::signing::verify_error;
use crate::client::signing::with_blank_signature;
use crate::client::signing::with_signed_flag;
use crate::client::signing::SigningAlgorithm;
use crate::crypto::aes_cmac_of;
use crate::crypto::hmac_sha256_of;
use crate::crypto::sha512_of;
use crate::laws::requests::lemma_signed_rides;
use crate::wire::negotiate::Dialect;
use vstd::prelude::*;

verus! {

/// Whether a key of 16 bytes is a session key, cut off or filled up with zeros.
pub open spec fn cut_or_filled(key: Seq<u8>, session_key: Seq<u8>) -> bool {
    &&& key.len() == 16
    &&& forall|i: int|
        0 <= i < 16 ==> #[trigger] key[i] == if i < session_key.len() {
            session_key[i]
        } else {
            0
        }
}

/// The input of the key derivation under SMB 3.1.1, byte for byte: the counter 1, `SMBSigningKey`
/// with its zero, a zero, the preauthentication hash, and the length 128.
pub open spec fn smb311_key_input(hash: Seq<u8>) -> Seq<u8> {
    seq![0u8, 0u8, 0u8, 1u8] + seq![
        'S' as u8,
        'M' as u8,
        'B' as u8,
        'S' as u8,
        'i' as u8,
        'g' as u8,
        'n' as u8,
        'i' as u8,
        'n' as u8,
        'g' as u8,
        'K' as u8,
        'e' as u8,
        'y' as u8,
        0u8,
    ] + seq![0u8] + hash + seq![0u8, 0u8, 0u8, 128u8]
}

/// The input of the key derivation under SMB 3.0 and 3.0.2, byte for byte: the counter 1,
/// `SMB2AESCMAC` with its zero, a zero, `SmbSign` with its zero, and the length 128.
pub open spec fn smb30_key_input() -> Seq<u8> {
    seq![0u8, 0u8, 0u8, 1u8] + seq![
        'S' as u8,
        'M' as u8,
        'B' as u8,
        '2' as u8,
        'A' as u8,
        'E' as u8,
        'S' as u8,
        'C' as u8,
        'M' as u8,
        'A' as u8,
        'C' as u8,
        0u8,
    ] + seq![0u8] + seq![
        'S' as u8,
        'm' as u8,
        'b' as u8,
        'S' as u8,
        'i' as u8,
        'g' as u8,
        'n' as u8,
        0u8,
    ] + seq![0u8, 0u8, 0u8, 128u8]
}

/// Under SMB 3.1.1 the signing key is the first 16 bytes of the HMAC-SHA256 code, under the session
/// key of 16 bytes, of the counter 1, the label `SMBSigningKey` with its zero, a zero, the
/// preauthentication hash and the length 128. Under SMB 3.0 and 3.0.2 label and context are
/// `SMB2AESCMAC` and `SmbSign` with their zeros. Before SMB 3 it is the session key itself.
pub proof fn law_signing_key(
    dialect: Dialect,
    session_key: Seq<u8>,
    hash: Option<Seq<u8>>,
    key: Seq<u8>,
)
    requires
        cut_or_filled(key, session_key),
        dialect == Dialect::Smb311 ==> hash is Some,
    ensures
        dialect == Dialect::Smb311 ==> signing_key_of(dialect, session_key, hash)
            == hmac_sha256_of(key, smb311_key_input(hash->0)).take(16),
        dialect == Dialect::Smb300 || dialect == Dialect::Smb302 ==> signing_key_of(
            dialect,
            session_key,
            hash,
        ) == hmac_sha256_of(key, smb30_key_input()).take(16),
        dialect == Dialect::Smb202 || dialect == Dialect::Smb210 ==> signing_key_of(
            dialect,
            session_key,
            hash,
        ) == key,
{
    reveal(be32);
    assert(key =~= normalized_key(session_key));
    let counter = be32(1);
    let bits = be32(128);
    assert(counter =~= seq![0u8, 0u8, 0u8, 1u8]);
    assert(bits =~= seq![0u8, 0u8, 0u8, 128u8]);
    if dialect == Dialect::Smb311 {
        assert(counter + crate::client::signing::smb311_label() + seq![0u8] + hash->0 + bits
            =~= smb311_key_input(hash->0));
    }
    assert(counter + crate::client::signing::smb30_label() + seq![0u8]
        + crate::client::signing::smb30_context() + bits =~= smb30_key_input());
}

/// Whether a key signs under a dialect: the session key of 16 bytes before SMB 3, and otherwise what is
/// derived from it by HMAC-SHA256 over the bytes of the dialect.
pub open spec fn signs_with(
    signing_key: Seq<u8>,
    dialect: Dialect,
    session_key: Seq<u8>,
    hash: Option<Seq<u8>>,
) -> bool {
    exists|key: Seq<u8>|
        {
            &&& #[trigger] cut_or_filled(key, session_key)
            &&& signing_key == match dialect {
                Dialect::Smb202 | Dialect::Smb210 => key,
                Dialect::Smb300 | Dialect::Smb302 => hmac_sha256_of(key, smb30_key_input()).take(
                    16,
                ),
                Dialect::Smb311 => hmac_sha256_of(key, smb311_key_input(hash->0)).take(16),
            }
        }
}

/// The signing key of a session is the one that its dialect signs with.
pub proof fn law_signs_with(dialect: Dialect, session_key: Seq<u8>, hash: Option<Seq<u8>>)
    requires
        dialect == Dialect::Smb311 ==> hash is Some,
    ensures
        signs_with(signing_key_of(dialect, session_key, hash), dialect, session_key, hash),
{
    let key = Seq::new(
        16,
        |i: int|
            if i < session_key.len() {
                session_key[i]
            } else {
                0u8
            },
    );
    assert(cut_or_filled(key, session_key));
    law_signing_key(dialect, session_key, hash, key);
}

/// The hash stands in the input of the key derivation right behind the label and its two zeros, and
/// nothing but the length follows it: other hashes give other inputs.
pub proof fn law_key_input_holds_the_hash(a: Seq<u8>, b: Seq<u8>)
    requires
        a.len() == 64,
        b.len() == 64,
    ensures
        smb311_key_input(a).len() == 87,
        smb311_key_input(a).subrange(19, 83) == a,
        smb311_key_input(a) == smb311_key_input(b) ==> a == b,
{
    assert(smb311_key_input(a).subrange(19, 83) =~= a);
    assert(smb311_key_input(b).subrange(19, 83) =~= b);
}

/// The dialect decides how messages are signed: with HMAC-SHA256 before SMB 3, with AES-CMAC under
/// SMB 3.0 and 3.0.2, and as was negotiated under SMB 3.1.1. Only there can the derivation fail:
/// where AES-GMAC was negotiated, and where there is no preauthentication hash.
pub proof fn law_signing_algorithm(
    dialect: Dialect,
    negotiated: SigningAlgorithm,
    hash: Option<Seq<u8>>,
)
    ensures
        dialect == Dialect::Smb202 || dialect == Dialect::Smb210 ==> dialect_algorithm(
            dialect,
            negotiated,
        ) == SigningAlgorithm::HmacSha256,
        dialect == Dialect::Smb300 || dialect == Dialect::Smb302 ==> dialect_algorithm(
            dialect,
            negotiated,
        ) == SigningAlgorithm::AesCmac,
        dialect == Dialect::Smb311 ==> dialect_algorithm(dialect, negotiated) == negotiated,
        derive_error(dialect, negotiated, hash) is Some <==> dialect == Dialect::Smb311 && (
        negotiated == SigningAlgorithm::AesGmac || hash is None),
        SigningAlgorithm::with_code(0) == Ok::<_, ClientError>(SigningAlgorithm::HmacSha256),
        SigningAlgorithm::with_code(1) == Ok::<_, ClientError>(SigningAlgorithm::AesCmac),
        SigningAlgorithm::with_code(2) == Ok::<_, ClientError>(SigningAlgorithm::AesGmac),
        forall|code: u16| code > 2 ==> #[trigger] SigningAlgorithm::with_code(code) is Err,
        forall|algorithm: SigningAlgorithm|
            SigningAlgorithm::with_code(#[trigger] algorithm.code()) == Ok::<_, ClientError>(
                algorithm,
            ),
{
}

/// A message whose signature field is zero, and which is otherwise another one.
pub open spec fn unsigned_form(blank: Seq<u8>, m: Seq<u8>) -> bool {
    &&& blank.len() == m.len()
    &&& forall|i: int|
        0 <= i < m.len() ==> #[trigger] blank[i] == if 48 <= i < 64 {
            0
        } else {
            m[i]
        }
}

/// A signed message is the message with the signed flag, bit 3, and, in bytes 48 to 63, the code of
/// the whole message with zeros in their place: the first 16 bytes of HMAC-SHA256, or AES-CMAC.
pub proof fn law_signed_message(
    algorithm: SigningAlgorithm,
    key: Seq<u8>,
    plain: Seq<u8>,
    blank: Seq<u8>,
)
    requires
        sign_error(algorithm, key, plain) is None,
        unsigned_form(blank, signed_message(algorithm, key, plain)),
    ensures
        ({
            let m = signed_message(algorithm, key, plain);
            &&& m.len() == plain.len()
            &&& u32_at(m, 16) == u32_at(plain, 16) | 8
            &&& forall|i: int|
                0 <= i < m.len() && !(16 <= i < 20) && !(48 <= i < 64) ==> #[trigger] m[i]
                    == plain[i]
            &&& match algorithm {
                SigningAlgorithm::HmacSha256 => forall|i: int|
                    0 <= i < 16 ==> #[trigger] m[48 + i] == hmac_sha256_of(key, blank).take(16)[i],
                SigningAlgorithm::AesCmac => key.len() == 16 && forall|i: int|
                    0 <= i < 16 ==> #[trigger] m[48 + i] == aes_cmac_of(key, blank)[i],
                SigningAlgorithm::AesGmac => false,
            }
        }),
{
    let m = signed_message(algorithm, key, plain);
    lemma_signed_rides(algorithm, key, plain);
    let zeroed = with_blank_signature(with_signed_flag(plain));
    assert(blank =~= zeroed);
    let code = signature_of(algorithm, key, zeroed)->Ok_0;
    assert forall|i: int| 0 <= i < 16 implies #[trigger] m[48 + i] == code[i] by {}
}

/// A message is accepted as signed if and only if it has a header, the signed flag, bit 3, is set,
/// and bytes 48 to 63 are the code of the whole message with zeros in their place.
pub proof fn law_verified_message(
    algorithm: SigningAlgorithm,
    key: Seq<u8>,
    m: Seq<u8>,
    blank: Seq<u8>,
)
    requires
        unsigned_form(blank, m),
        crate::wire::header::header_error(m) is None,
    ensures
        verify_error(algorithm, key, m) is None <==> u32_at(m, 16) & 8 != 0 && match algorithm {
            SigningAlgorithm::HmacSha256 => m.subrange(48, 64) == hmac_sha256_of(key, blank).take(
                16,
            ),
            SigningAlgorithm::AesCmac => key.len() == 16 && m.subrange(48, 64) == aes_cmac_of(
                key,
                blank,
            ),
            SigningAlgorithm::AesGmac => false,
        },
{
    assert(blank =~= with_blank_signature(m));
}

/// The preauthentication hash covers every message in its order: it begins with 64 zeros, and each
/// message is hashed behind the hash so far.
pub proof fn law_preauth_covers_messages(messages: Seq<Seq<u8>>, m: Seq<u8>)
    ensures
        preauth_of(Seq::empty()).len() == 64,
        forall|i: int| 0 <= i < 64 ==> #[trigger] preauth_of(Seq::empty())[i] == 0,
        preauth_of(messages.push(m)) == sha512_of(preauth_of(messages) + m),
{
    assert(messages.push(m).drop_last() =~= messages);
}

} // verus!
