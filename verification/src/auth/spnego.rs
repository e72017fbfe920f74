//! SPNEGO wrapping of NTLM messages in DER.

use crate::auth::provider::AuthError;
use crate::bytes::begins_with;
use crate::bytes::has_prefix;
use crate::bytes::put_bytes;
use vstd::prelude::*;

verus! {

/// The bytes that every NTLM message begins with.
pub const NTLMSSP_SIGNATURE: [u8; 8] = [0x4e, 0x54, 0x4c, 0x4d, 0x53, 0x53, 0x50, 0x00];

const SPNEGO_OID: [u8; 8] = [0x06, 0x06, 0x2b, 0x06, 0x01, 0x05, 0x05, 0x02];

const NTLMSSP_OID: [u8; 12] = [
    0x06, 0x0a, 0x2b, 0x06, 0x01, 0x04, 0x01, 0x82, 0x37, 0x02, 0x02, 0x0a,
];

/// How deep DER elements may nest.
pub const MAX_DER_DEPTH: usize = 12;

/// The bytes that every NTLM message begins with.
pub open spec fn ntlmssp() -> Seq<u8> {
    seq![0x4eu8, 0x54u8, 0x4cu8, 0x4du8, 0x53u8, 0x53u8, 0x50u8, 0u8]
}

/// The object identifier of SPNEGO.
pub open spec fn spnego_oid() -> Seq<u8> {
    der_tlv_of(0x06, seq![0x2bu8, 0x06u8, 0x01u8, 0x05u8, 0x05u8, 0x02u8])
}

/// The object identifier of NTLM.
pub open spec fn ntlmssp_oid() -> Seq<u8> {
    der_tlv_of(
        0x06,
        seq![
            0x2bu8,
            0x06u8,
            0x01u8,
            0x04u8,
            0x01u8,
            0x82u8,
            0x37u8,
            0x02u8,
            0x02u8,
            0x0au8,
        ],
    )
}

/// The bytes of a number, most significant first, without leading zeros.
pub open spec fn be_bytes_of(n: nat) -> Seq<u8>
    decreases n,
{
    if n == 0 {
        Seq::empty()
    } else {
        be_bytes_of(n / 256).push((n % 256) as u8)
    }
}

/// The number whose bytes are given, most significant first.
pub open spec fn be_value(s: Seq<u8>) -> nat
    decreases s.len(),
{
    if s.len() == 0 {
        0
    } else {
        be_value(s.drop_last()) * 256 + s.last() as nat
    }
}

/// The DER length octets of a length.
pub open spec fn der_length_of(n: nat) -> Seq<u8> {
    if n < 128 {
        seq![n as u8]
    } else {
        seq![(128 + be_bytes_of(n).len()) as u8] + be_bytes_of(n)
    }
}

/// A DER element.
pub open spec fn der_tlv_of(tag: u8, content: Seq<u8>) -> Seq<u8> {
    seq![tag] + der_length_of(content.len()) + content
}

/// The SPNEGO token that opens an exchange with an NTLM message.
pub open spec fn neg_token_init_of(ntlm: Seq<u8>) -> Seq<u8> {
    let mech_types = der_tlv_of(0xa0, der_tlv_of(0x30, ntlmssp_oid()));
    let mech_token = der_tlv_of(0xa2, der_tlv_of(0x04, ntlm));
    der_tlv_of(
        0x60,
        spnego_oid() + der_tlv_of(0xa0, der_tlv_of(0x30, mech_types + mech_token)),
    )
}

/// The SPNEGO token that continues an exchange with an NTLM message.
pub open spec fn neg_token_resp_of(ntlm: Seq<u8>) -> Seq<u8> {
    der_tlv_of(0xa1, der_tlv_of(0x30, der_tlv_of(0xa2, der_tlv_of(0x04, ntlm))))
}

/// The extent of a DER element: where its content begins and ends.
pub struct DerExtent {
    pub tag: u8,
    pub start: int,
    pub end: int,
}

/// The DER element at the beginning of bytes.
pub open spec fn parse_tlv_of(input: Seq<u8>) -> Result<DerExtent, AuthError> {
    if input.len() < 2 {
        Err(AuthError::InvalidToken("truncated DER TLV"))
    } else if input[1] < 128 {
        if 2 + input[1] > input.len() {
            Err(AuthError::InvalidToken("truncated DER content"))
        } else {
            Ok(DerExtent { tag: input[0], start: 2, end: 2 + input[1] })
        }
    } else {
        let count = input[1] - 128;
        let value = be_value(input.subrange(2, 2 + count));
        if count == 0 || count > usize::BITS as int / 8 || input.len() < 2 + count {
            Err(AuthError::InvalidToken("invalid DER length"))
        } else if input[2] == 0 {
            Err(AuthError::InvalidToken("non-minimal DER length"))
        } else if value < 128 {
            Err(AuthError::InvalidToken("non-minimal DER long-form length"))
        } else if 2 + count + value > usize::MAX {
            Err(AuthError::InvalidToken("DER content length overflow"))
        } else if 2 + count + value > input.len() {
            Err(AuthError::InvalidToken("truncated DER content"))
        } else {
            Ok(DerExtent { tag: input[0], start: 2 + count, end: 2 + count + value })
        }
    }
}

/// Whether the DER element at the beginning of bytes has a tag and a content, and ends at a length.
pub open spec fn parses_into(input: Seq<u8>, tag: u8, content: Seq<u8>, n: int) -> bool {
    match parse_tlv_of(input) {
        Ok(extent) => {
            &&& extent.tag == tag
            &&& input.subrange(extent.start, extent.end) == content
            &&& extent.end == n
        },
        Err(_) => false,
    }
}

/// The first NTLM message among DER elements, in the order in which they stand.
pub open spec fn find_ntlm_of(input: Seq<u8>, depth: nat) -> Result<Option<Seq<u8>>, AuthError>
    decreases input.len(),
{
    if depth > MAX_DER_DEPTH {
        Err(AuthError::InvalidToken("SPNEGO nesting is too deep"))
    } else if input.len() == 0 {
        Ok(None)
    } else {
        match parse_tlv_of(input) {
            Err(e) => Err(e),
            Ok(extent) => {
                if !(2 <= extent.start <= extent.end <= input.len()) {
                    Ok(None)
                } else {
                    let content = input.subrange(extent.start, extent.end);
                    if begins_with(content, ntlmssp()) {
                        Ok(Some(content))
                    } else if extent.tag & 0x20 != 0 {
                        match find_ntlm_of(content, depth + 1) {
                            Err(e) => Err(e),
                            Ok(Some(found)) => Ok(Some(found)),
                            Ok(None) => find_ntlm_of(input.skip(extent.end), depth),
                        }
                    } else {
                        find_ntlm_of(input.skip(extent.end), depth)
                    }
                }
            },
        }
    }
}

/// The NTLM message of a token: the token itself, or the first one found in its DER elements.
pub open spec fn extract_ntlm_of(token: Seq<u8>) -> Result<Seq<u8>, AuthError> {
    if begins_with(token, ntlmssp()) {
        Ok(token)
    } else {
        match find_ntlm_of(token, 0) {
            Err(e) => Err(e),
            Ok(Some(found)) => Ok(found),
            Ok(None) => Err(
                AuthError::InvalidToken("SPNEGO token does not contain an NTLMSSP message"),
            ),
        }
    }
}

/// Appends the bytes of a number, most significant first, without leading zeros.
fn put_be_bytes(out: &mut Vec<u8>, n: usize)
    ensures
        final(out)@ == old(out)@ + be_bytes_of(n as nat),
    decreases n,
{
    if n > 0 {
        put_be_bytes(out, n / 256);
        out.push((n % 256) as u8);
        assert(out@ =~= old(out)@ + be_bytes_of(n as nat));
    } else {
        assert(out@ =~= old(out)@ + be_bytes_of(0));
    }
}

/// Appends the DER length octets of a length.
fn encode_der_length(length: usize, out: &mut Vec<u8>)
    ensures
        final(out)@ == old(out)@ + der_length_of(length as nat),
{
    if length < 128 {
        out.push(length as u8);
        assert(out@ =~= old(out)@ + der_length_of(length as nat));
        return;
    }
    let mut octets: Vec<u8> = Vec::new();
    put_be_bytes(&mut octets, length);
    assert(octets@ =~= be_bytes_of(length as nat));
    proof {
        lemma_be_bytes_fit(length);
    }
    out.push((128 + octets.len()) as u8);
    put_bytes(out, &octets);
    assert(out@ =~= old(out)@ + der_length_of(length as nat));
}

/// Builds a DER element.
pub fn der_tlv(tag: u8, content: &[u8]) -> (r: Vec<u8>)
    ensures
        r@ == der_tlv_of(tag, content@),
{
    let mut out: Vec<u8> = Vec::new();
    out.push(tag);
    assert(out@ =~= seq![tag]);
    encode_der_length(content.len(), &mut out);
    put_bytes(&mut out, content);
    out
}

/// Wraps an NTLM message in the SPNEGO token that opens an exchange.
pub fn encode_neg_token_init_ntlm(ntlm_token: &[u8]) -> (r: Vec<u8>)
    ensures
        r@ == neg_token_init_of(ntlm_token@),
{
    proof {
        lemma_oids();
    }
    let mech_list = der_tlv(0x30, &NTLMSSP_OID);
    let mut sequence_body = der_tlv(0xa0, &mech_list);
    let mech_token = der_tlv(0xa2, &der_tlv(0x04, ntlm_token));
    put_bytes(&mut sequence_body, &mech_token);
    let neg_token_init = der_tlv(0xa0, &der_tlv(0x30, &sequence_body));
    let mut gss_body: Vec<u8> = Vec::new();
    put_bytes(&mut gss_body, &SPNEGO_OID);
    assert(gss_body@ =~= spnego_oid());
    put_bytes(&mut gss_body, &neg_token_init);
    der_tlv(0x60, &gss_body)
}

/// Wraps an NTLM message in the SPNEGO token that continues an exchange.
pub fn encode_neg_token_resp_ntlm(ntlm_token: &[u8]) -> (r: Vec<u8>)
    ensures
        r@ == neg_token_resp_of(ntlm_token@),
{
    let response_token = der_tlv(0xa2, &der_tlv(0x04, ntlm_token));
    der_tlv(0xa1, &der_tlv(0x30, &response_token))
}

/// The object identifiers are DER elements.
proof fn lemma_oids()
    ensures
        NTLMSSP_OID@ == ntlmssp_oid(),
        SPNEGO_OID@ == spnego_oid(),
{
    assert(NTLMSSP_OID@ =~= ntlmssp_oid());
    assert(SPNEGO_OID@ =~= spnego_oid());
}

/// `256` to the power of `k`.
pub open spec fn pow256(k: nat) -> nat
    decreases k,
{
    if k == 0 {
        1
    } else {
        256 * pow256((k - 1) as nat)
    }
}

/// A number of `k` bytes is below `256` to the power of `k`.
proof fn lemma_be_value_bound(s: Seq<u8>)
    ensures
        be_value(s) < pow256(s.len()),
    decreases s.len(),
{
    if s.len() > 0 {
        lemma_be_value_bound(s.drop_last());
    }
}

/// The powers that bound machine words.
proof fn lemma_pow256_values()
    ensures
        pow256(4) == 0x1_0000_0000,
        pow256(8) == 0x1_0000_0000_0000_0000,
{
    reveal_with_fuel(pow256, 9);
}

/// `pow256` grows.
proof fn lemma_pow256_grows(j: nat, k: nat)
    requires
        j <= k,
    ensures
        pow256(j) <= pow256(k),
    decreases k,
{
    if j < k {
        lemma_pow256_grows(j, (k - 1) as nat);
    }
}

/// As many bytes as a word has never exceed the word.
proof fn lemma_word_bound(k: nat)
    requires
        k <= usize::BITS as int / 8,
    ensures
        pow256(k) <= usize::MAX + 1,
{
    lemma_pow256_values();
    vstd::layout::unsigned_int_max_values();
    if usize::BITS == 32 {
        lemma_pow256_grows(k, 4);
    } else {
        lemma_pow256_grows(k, 8);
    }
}

/// The bytes of a number have no leading zero, hold the number and are as few as can be.
proof fn lemma_be_bytes(n: nat, k: nat)
    requires
        n < pow256(k),
    ensures
        be_value(be_bytes_of(n)) == n,
        be_bytes_of(n).len() <= k,
        n > 0 ==> be_bytes_of(n).len() > 0 && be_bytes_of(n)[0] != 0,
    decreases n,
{
    if n > 0 {
        assert(k > 0);
        assert(n / 256 < pow256((k - 1) as nat));
        lemma_be_bytes(n / 256, (k - 1) as nat);
        let s = be_bytes_of(n);
        assert(s.drop_last() =~= be_bytes_of(n / 256));
    }
}

/// A word has at most as many bytes as a word.
proof fn lemma_be_bytes_fit(n: usize)
    ensures
        be_value(be_bytes_of(n as nat)) == n,
        be_bytes_of(n as nat).len() <= usize::BITS as int / 8,
        be_bytes_of(n as nat).len() <= 8,
        n > 0 ==> be_bytes_of(n as nat).len() > 0 && be_bytes_of(n as nat)[0] != 0,
{
    lemma_pow256_values();
    vstd::layout::unsigned_int_max_values();
    if usize::BITS == 32 {
        lemma_be_bytes(n as nat, 4);
    } else {
        lemma_be_bytes(n as nat, 8);
    }
}

/// Parses the DER element at the beginning of bytes into its tag, its content and its length.
pub fn parse_tlv<'a>(input: &'a [u8]) -> (r: Result<(u8, &'a [u8], usize), AuthError>)
    ensures
        match parse_tlv_of(input@) {
            Err(e) => r == Err::<(u8, &'a [u8], usize), AuthError>(e),
            Ok(extent) => r is Ok && r->Ok_0.0 == extent.tag && r->Ok_0.1@ == input@.subrange(
                extent.start,
                extent.end,
            ) && r->Ok_0.2 == extent.end && 2 <= extent.start <= extent.end <= input@.len()
                && parses_into(input@, r->Ok_0.0, r->Ok_0.1@, r->Ok_0.2 as int),
        },
{
    assert(input.len() == input@.len());
    if input.len() < 2 {
        return Err(AuthError::InvalidToken("truncated DER TLV"));
    }
    let tag: u8 = input[0];
    let first: u8 = input[1];
    if first < 128 {
        let end: usize = 2 + first as usize;
        if end > input.len() {
            return Err(AuthError::InvalidToken("truncated DER content"));
        }
        return Ok((tag, &input[2..end], end));
    }
    let count: usize = (first - 128) as usize;
    if count == 0 || count > (usize::BITS / 8) as usize || input.len() < 2 + count {
        return Err(AuthError::InvalidToken("invalid DER length"));
    }
    if input[2] == 0 {
        return Err(AuthError::InvalidToken("non-minimal DER length"));
    }
    let ghost octets = input@.subrange(2, 2 + count as int);
    let mut value: usize = 0;
    let mut i: usize = 0;
    while i < count
        invariant
            i <= count,
            count <= usize::BITS as int / 8,
            2 + count <= input@.len() <= usize::MAX,
            octets == input@.subrange(2, 2 + count as int),
            value == be_value(octets.take(i as int)),
        decreases count - i,
    {
        proof {
            let next = octets.take(i + 1);
            assert(next.drop_last() =~= octets.take(i as int));
            lemma_be_value_bound(next);
            lemma_word_bound((i + 1) as nat);
        }
        value = value * 256 + input[2 + i] as usize;
        i = i + 1;
    }
    assert(octets.take(count as int) =~= octets);
    if value < 128 {
        return Err(AuthError::InvalidToken("non-minimal DER long-form length"));
    }
    let header_len: usize = 2 + count;
    match header_len.checked_add(value) {
        None => Err(AuthError::InvalidToken("DER content length overflow")),
        Some(end) => {
            if end > input.len() {
                return Err(AuthError::InvalidToken("truncated DER content"));
            }
            Ok((tag, &input[header_len..end], end))
        },
    }
}

/// Finds the first NTLM message among DER elements.
fn find_ntlm_in_der<'a>(input: &'a [u8], depth: usize) -> (r: Result<
    Option<&'a [u8]>,
    AuthError,
>)
    requires
        depth <= MAX_DER_DEPTH + 1,
    ensures
        match find_ntlm_of(input@, depth as nat) {
            Err(e) => r == Err::<Option<&'a [u8]>, AuthError>(e),
            Ok(None) => r == Ok::<Option<&'a [u8]>, AuthError>(None),
            Ok(Some(found)) => r is Ok && r->Ok_0 is Some && r->Ok_0->0@ == found,
        },
    decreases input@.len(),
{
    if depth > MAX_DER_DEPTH {
        return Err(AuthError::InvalidToken("SPNEGO nesting is too deep"));
    }
    let mut offset: usize = 0;
    assert(input@.skip(0) =~= input@);
    while offset < input.len()
        invariant
            offset <= input@.len(),
            depth <= MAX_DER_DEPTH,
            find_ntlm_of(input@, depth as nat) == find_ntlm_of(
                input@.skip(offset as int),
                depth as nat,
            ),
        decreases input@.len() - offset,
    {
        assert(input.len() == input@.len());
        let rest = &input[offset..input.len()];
        assert(rest@ =~= input@.skip(offset as int));
        let (tag, content, consumed) = parse_tlv(rest)?;
        assert(NTLMSSP_SIGNATURE@ =~= ntlmssp());
        if has_prefix(content, &NTLMSSP_SIGNATURE) {
            return Ok(Some(content));
        }
        if tag & 0x20 != 0 {
            match find_ntlm_in_der(content, depth + 1)? {
                Some(found) => {
                    return Ok(Some(found));
                },
                None => {},
            }
        }
        assert(rest@.skip(consumed as int) =~= input@.skip(offset + consumed));
        offset = offset + consumed;
    }
    assert(input@.skip(offset as int).len() == 0);
    Ok(None)
}

/// Takes the NTLM message out of a token, which may be one itself.
pub fn extract_ntlm_token<'a>(token: &'a [u8]) -> (r: Result<&'a [u8], AuthError>)
    ensures
        match extract_ntlm_of(token@) {
            Err(e) => r == Err::<&'a [u8], AuthError>(e),
            Ok(found) => r is Ok && r->Ok_0@ == found,
        },
{
    assert(NTLMSSP_SIGNATURE@ =~= ntlmssp());
    if has_prefix(token, &NTLMSSP_SIGNATURE) {
        return Ok(token);
    }
    match find_ntlm_in_der(token, 0)? {
        Some(found) => Ok(found),
        None => Err(AuthError::InvalidToken("SPNEGO token does not contain an NTLMSSP message")),
    }
}

/// A DER element is parsed into its own tag and content, whatever follows it.
proof fn lemma_parse_built(tag: u8, content: Seq<u8>, rest: Seq<u8>)
    requires
        (der_tlv_of(tag, content) + rest).len() <= usize::MAX,
    ensures
        ({
            let m = der_tlv_of(tag, content) + rest;
            let e = parse_tlv_of(m);
            &&& e is Ok
            &&& e->Ok_0.tag == tag
            &&& 2 <= e->Ok_0.start <= e->Ok_0.end <= m.len()
            &&& m.subrange(e->Ok_0.start, e->Ok_0.end) == content
            &&& m.skip(e->Ok_0.end) == rest
        }),
{
    let m = der_tlv_of(tag, content) + rest;
    let n = content.len();
    if n < 128 {
        assert(m[1] == n);
        assert(m.subrange(2, 2 + n as int) =~= content);
        assert(m.skip(2 + n as int) =~= rest);
    } else {
        lemma_be_bytes_fit(n as usize);
        let octets = be_bytes_of(n);
        let count = octets.len() as int;
        assert(m[1] == 128 + count);
        assert(m.subrange(2, 2 + count) =~= octets);
        assert(m[2] == octets[0]);
        assert(m.subrange(2 + count, 2 + count + n as int) =~= content);
        assert(m.skip(2 + count + n as int) =~= rest);
    }
}

/// Bytes without a leading zero are the bytes of the number that they hold.
proof fn lemma_be_bytes_unique(s: Seq<u8>)
    requires
        s.len() > 0,
        s[0] != 0,
    ensures
        be_bytes_of(be_value(s)) == s,
    decreases s.len(),
{
    let front = s.drop_last();
    let value = be_value(s);
    assert(value == be_value(front) * 256 + s.last() as nat);
    assert(value / 256 == be_value(front) && value % 256 == s.last());
    if front.len() == 0 {
        assert(front =~= Seq::empty());
        assert(be_bytes_of(be_value(front)) =~= front);
    } else {
        lemma_be_bytes_unique(front);
    }
    assert(value > 0);
    assert(be_bytes_of(value) =~= s);
}

/// Bytes are parsed into a tag, a content and a length exactly where they begin with the DER element
/// of that tag and that content, and the length is that element's. So every element parses back from
/// its encoding, whatever follows it, and no other encoding of a length is accepted: none without a
/// number of octets, none with a leading zero, and no long form below 128.
pub proof fn law_der_element_parses_back(input: Seq<u8>, tag: u8, content: Seq<u8>, n: int)
    requires
        input.len() <= usize::MAX,
    ensures
        parses_into(input, tag, content, n) <==> begins_with(input, der_tlv_of(tag, content)) && n
            == der_tlv_of(tag, content).len(),
{
    let element = der_tlv_of(tag, content);
    if begins_with(input, element) && n == element.len() {
        let rest = input.skip(n);
        assert(element + rest =~= input);
        lemma_parse_built(tag, content, rest);
        let end = parse_tlv_of(input)->Ok_0.end;
        assert(input.skip(end).len() == input.len() - end);
        assert(rest.len() == input.len() - n);
    }
    if parses_into(input, tag, content, n) {
        let extent = parse_tlv_of(input)->Ok_0;
        if input[1] >= 128 {
            let octets = input.subrange(2, extent.start);
            lemma_be_bytes_unique(octets);
        }
        assert(input.take(n) =~= element);
    }
}

/// What a search makes of a DER element, whatever follows it.
proof fn lemma_find_built(tag: u8, content: Seq<u8>, rest: Seq<u8>, depth: nat)
    requires
        depth <= MAX_DER_DEPTH,
        (der_tlv_of(tag, content) + rest).len() <= usize::MAX,
    ensures
        find_ntlm_of(der_tlv_of(tag, content) + rest, depth) == if begins_with(
            content,
            ntlmssp(),
        ) {
            Ok(Some(content))
        } else if tag & 0x20 != 0 {
            match find_ntlm_of(content, depth + 1) {
                Err(e) => Err(e),
                Ok(Some(found)) => Ok(Some(found)),
                Ok(None) => find_ntlm_of(rest, depth),
            }
        } else {
            find_ntlm_of(rest, depth)
        },
{
    lemma_parse_built(tag, content, rest);
}

/// A search takes elements in their order: one whose content is an NTLM message ends it, a constructed
/// one, bit 5 of its tag, is searched before what follows it, and any other one is passed over. It goes
/// twelve levels deep and no deeper.
pub proof fn law_search_goes_in_order(tag: u8, content: Seq<u8>, rest: Seq<u8>, depth: nat)
    requires
        depth <= 12,
        (der_tlv_of(tag, content) + rest).len() <= usize::MAX,
    ensures
        find_ntlm_of(der_tlv_of(tag, content) + rest, depth) == if begins_with(
            content,
            ntlmssp(),
        ) {
            Ok(Some(content))
        } else if tag & 0x20 != 0 {
            match find_ntlm_of(content, depth + 1) {
                Err(e) => Err(e),
                Ok(Some(found)) => Ok(Some(found)),
                Ok(None) => find_ntlm_of(rest, depth),
            }
        } else {
            find_ntlm_of(rest, depth)
        },
        depth == 12 ==> find_ntlm_of(content, depth + 1) is Err,
{
    lemma_find_built(tag, content, rest, depth);
}

/// Bytes that do not begin with `N` begin no NTLM message.
proof fn lemma_not_ntlm(s: Seq<u8>)
    requires
        s.len() == 0 || s[0] != 0x4e,
    ensures
        !begins_with(s, ntlmssp()),
{
    if begins_with(s, ntlmssp()) {
        assert(s.take(8)[0] == ntlmssp()[0]);
    }
}

/// The tag of a DER element is its first byte.
proof fn lemma_tlv_first(tag: u8, content: Seq<u8>)
    ensures
        der_tlv_of(tag, content).len() >= 2 + content.len(),
        der_tlv_of(tag, content)[0] == tag,
{
}

/// Where an element that holds an octet string with an NTLM message stands, the message is found.
proof fn lemma_find_mech_token(ntlm: Seq<u8>, depth: nat)
    requires
        begins_with(ntlm, ntlmssp()),
        depth < MAX_DER_DEPTH,
        der_tlv_of(0xa2, der_tlv_of(0x04, ntlm)).len() <= usize::MAX,
    ensures
        find_ntlm_of(der_tlv_of(0xa2, der_tlv_of(0x04, ntlm)), depth) == Ok::<_, AuthError>(
            Some(ntlm),
        ),
{
    let octets = der_tlv_of(0x04, ntlm);
    let token = der_tlv_of(0xa2, octets);
    lemma_tlv_first(0x04, ntlm);
    lemma_tlv_first(0xa2, octets);
    assert(0xa2u8 & 0x20 != 0) by (bit_vector);
    assert(octets + Seq::empty() =~= octets);
    assert(token + Seq::empty() =~= token);
    lemma_find_built(0x04, ntlm, Seq::empty(), depth + 1);
    lemma_not_ntlm(octets);
    lemma_find_built(0xa2, octets, Seq::empty(), depth);
}

/// The message that a continuing SPNEGO token was built from is the one taken out of it.
pub proof fn law_response_token_roundtrip(ntlm: Seq<u8>)
    requires
        begins_with(ntlm, ntlmssp()),
        neg_token_resp_of(ntlm).len() <= usize::MAX,
    ensures
        extract_ntlm_of(neg_token_resp_of(ntlm)) == Ok::<_, AuthError>(ntlm),
{
    let mech_token = der_tlv_of(0xa2, der_tlv_of(0x04, ntlm));
    let sequence = der_tlv_of(0x30, mech_token);
    let token = der_tlv_of(0xa1, sequence);
    lemma_tlv_first(0xa2, der_tlv_of(0x04, ntlm));
    lemma_tlv_first(0x30, mech_token);
    lemma_tlv_first(0xa1, sequence);
    assert(0x30u8 & 0x20 != 0 && 0xa1u8 & 0x20 != 0) by (bit_vector);
    lemma_find_mech_token(ntlm, 2);
    assert(sequence + Seq::empty() =~= sequence);
    assert(token + Seq::empty() =~= token);
    lemma_not_ntlm(mech_token);
    lemma_find_built(0x30, mech_token, Seq::empty(), 1);
    lemma_not_ntlm(sequence);
    lemma_find_built(0xa1, sequence, Seq::empty(), 0);
    lemma_not_ntlm(token);
}

/// The message that an opening SPNEGO token was built from is the one taken out of it.
pub proof fn law_initial_token_roundtrip(ntlm: Seq<u8>)
    requires
        begins_with(ntlm, ntlmssp()),
        neg_token_init_of(ntlm).len() <= usize::MAX,
    ensures
        extract_ntlm_of(neg_token_init_of(ntlm)) == Ok::<_, AuthError>(ntlm),
{
    let none = Seq::<u8>::empty();
    let mech_list = der_tlv_of(0x30, ntlmssp_oid());
    let mech_types = der_tlv_of(0xa0, mech_list);
    let mech_token = der_tlv_of(0xa2, der_tlv_of(0x04, ntlm));
    let body = mech_types + mech_token;
    let sequence = der_tlv_of(0x30, body);
    let init = der_tlv_of(0xa0, sequence);
    let gss = spnego_oid() + init;
    let token = der_tlv_of(0x60, gss);
    assert(0x30u8 & 0x20 != 0 && 0xa0u8 & 0x20 != 0 && 0x60u8 & 0x20 != 0 && 0x06u8 & 0x20 == 0)
        by (bit_vector);
    lemma_tlv_first(0x30, ntlmssp_oid());
    lemma_tlv_first(0xa0, mech_list);
    lemma_tlv_first(0xa2, der_tlv_of(0x04, ntlm));
    lemma_tlv_first(0x30, body);
    lemma_tlv_first(0xa0, sequence);
    lemma_tlv_first(0x60, gss);

    // The object identifier of NTLM holds no message.
    let ntlm_oid = seq![
        0x2bu8,
        0x06u8,
        0x01u8,
        0x04u8,
        0x01u8,
        0x82u8,
        0x37u8,
        0x02u8,
        0x02u8,
        0x0au8,
    ];
    lemma_not_ntlm(ntlm_oid);
    assert(ntlmssp_oid() + none =~= ntlmssp_oid());
    lemma_find_built(0x06, ntlm_oid, none, 5);
    assert(find_ntlm_of(ntlmssp_oid(), 5) == Ok::<Option<Seq<u8>>, AuthError>(None));
    lemma_not_ntlm(ntlmssp_oid());
    assert(mech_list + none =~= mech_list);
    lemma_find_built(0x30, ntlmssp_oid(), none, 4);
    assert(find_ntlm_of(mech_list, 4) == Ok::<Option<Seq<u8>>, AuthError>(None));

    // The token behind it does.
    lemma_find_mech_token(ntlm, 3);
    lemma_not_ntlm(mech_list);
    lemma_find_built(0xa0, mech_list, mech_token, 3);
    assert(find_ntlm_of(body, 3) == Ok::<_, AuthError>(Some(ntlm)));
    lemma_not_ntlm(body);
    assert(sequence + none =~= sequence);
    lemma_find_built(0x30, body, none, 2);
    lemma_not_ntlm(sequence);
    assert(init + none =~= init);
    lemma_find_built(0xa0, sequence, none, 1);
    let spnego = seq![0x2bu8, 0x06u8, 0x01u8, 0x05u8, 0x05u8, 0x02u8];
    lemma_not_ntlm(spnego);
    lemma_find_built(0x06, spnego, init, 1);
    lemma_not_ntlm(gss);
    assert(token + none =~= token);
    lemma_find_built(0x60, gss, none, 0);
    lemma_not_ntlm(token);
}

/// A token that is an NTLM message itself is taken as it is.
pub proof fn law_raw_token_accepted(ntlm: Seq<u8>)
    requires
        begins_with(ntlm, ntlmssp()),
    ensures
        extract_ntlm_of(ntlm) == Ok::<_, AuthError>(ntlm),
{
}

/// Whether bytes stand somewhere in others without a gap.
pub open spec fn is_part_of(part: Seq<u8>, whole: Seq<u8>) -> bool {
    exists|at: int| stands_at(part, whole, at)
}

/// Whether bytes stand at a place in others.
pub open spec fn stands_at(part: Seq<u8>, whole: Seq<u8>, at: int) -> bool {
    &&& 0 <= at <= at + part.len() <= whole.len()
    &&& whole.subrange(at, at + part.len()) == part
}

/// A part of a part is a part of the whole.
proof fn lemma_part_of_part(part: Seq<u8>, whole: Seq<u8>, start: int, end: int)
    requires
        0 <= start <= end <= whole.len(),
        is_part_of(part, whole.subrange(start, end)),
    ensures
        is_part_of(part, whole),
{
    let middle = whole.subrange(start, end);
    let at = choose|at: int| stands_at(part, middle, at);
    assert(whole.subrange(start + at, start + at + part.len()) =~= middle.subrange(
        at,
        at + part.len(),
    ));
    assert(stands_at(part, whole, start + at));
}

/// What a search finds is a part of what was searched, and begins an NTLM message.
proof fn lemma_found_is_part(input: Seq<u8>, depth: nat)
    ensures
        find_ntlm_of(input, depth) matches Ok(Some(found)) ==> is_part_of(found, input)
            && begins_with(found, ntlmssp()),
    decreases input.len(),
{
    if depth <= MAX_DER_DEPTH && input.len() > 0 && parse_tlv_of(input) is Ok {
        let extent = parse_tlv_of(input)->Ok_0;
        if 2 <= extent.start <= extent.end <= input.len() {
            let content = input.subrange(extent.start, extent.end);
            let rest = input.skip(extent.end);
            assert(rest =~= input.subrange(extent.end, input.len() as int));
            lemma_found_is_part(content, depth + 1);
            lemma_found_is_part(rest, depth);
            assert(stands_at(content, input, extent.start));
            if let Ok(Some(found)) = find_ntlm_of(content, depth + 1) {
                lemma_part_of_part(found, input, extent.start, extent.end);
            }
            if let Ok(Some(found)) = find_ntlm_of(rest, depth) {
                lemma_part_of_part(found, input, extent.end, input.len() as int);
            }
        }
    }
}

/// The message that is taken out of a token stands in it without a gap, and begins as every NTLM
/// message does.
pub proof fn law_extracted_token_is_part(token: Seq<u8>)
    requires
        extract_ntlm_of(token) is Ok,
    ensures
        is_part_of(extract_ntlm_of(token)->Ok_0, token),
        begins_with(extract_ntlm_of(token)->Ok_0, ntlmssp()),
{
    assert(token.subrange(0, token.len() as int) =~= token);
    assert(stands_at(token, token, 0));
    lemma_found_is_part(token, 0);
}

} // verus!
