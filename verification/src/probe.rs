//! What the command-line probe works out: hexadecimal payloads, names, and the verdict on what was
//! read.

use crate::bytes::copy_bytes;
use crate::bytes::same_bytes;
use crate::text::append_text;
use crate::text::copy_text;
use crate::wire::negotiate::Dialect;
use vstd::prelude::*;
use vstd::utf8::encode_utf8;

verus! {

/// The value of a hexadecimal digit, of either case.
pub open spec fn nibble_of(byte: u8) -> Option<u8> {
    if 48 <= byte <= 57 {
        Some((byte - 48) as u8)
    } else if 97 <= byte <= 102 {
        Some((byte - 87) as u8)
    } else if 65 <= byte <= 70 {
        Some((byte - 55) as u8)
    } else {
        None
    }
}

/// The value of a hexadecimal digit, of either case.
pub fn hex_nibble(byte: u8) -> (r: Option<u8>)
    ensures
        r == nibble_of(byte),
{
    if byte >= 48 && byte <= 57 {
        Some(byte - 48)
    } else if byte >= 97 && byte <= 102 {
        Some(byte - 87)
    } else if byte >= 65 && byte <= 70 {
        Some(byte - 55)
    } else {
        None
    }
}

/// Why digits are no hexadecimal payload, if they are none.
pub open spec fn hex_error(digits: Seq<u8>) -> Option<&'static str> {
    if digits.len() == 0 || digits.len() % 2 != 0 {
        Some("hex payload must contain an even, non-zero number of digits")
    } else if exists|i: int| 0 <= i < digits.len() && nibble_of(#[trigger] digits[i]) is None {
        Some("hex payload contains a non-hex digit")
    } else {
        None
    }
}

/// The bytes that hexadecimal digits stand for, two digits for each.
pub open spec fn parsed_hex(digits: Seq<u8>) -> Seq<u8> {
    Seq::new(
        digits.len() / 2,
        |i: int| (16 * nibble_of(digits[2 * i])->0 + nibble_of(digits[2 * i + 1])->0) as u8,
    )
}

/// Reads a hexadecimal payload.
pub fn parse_hex(value: &str) -> (r: Result<Vec<u8>, &'static str>)
    ensures
        match hex_error(encode_utf8(value@)) {
            Some(e) => r == Err::<Vec<u8>, &'static str>(e),
            None => r is Ok && r->Ok_0@ == parsed_hex(encode_utf8(value@)),
        },
{
    let input = value.as_bytes();
    if input.len() == 0 || input.len() % 2 != 0 {
        return Err("hex payload must contain an even, non-zero number of digits");
    }
    let n: usize = input.len() / 2;
    let mut out: Vec<u8> = Vec::new();
    let mut i: usize = 0;
    while i < n
        invariant
            i <= n,
            input@ == encode_utf8(value@),
            input@.len() % 2 == 0,
            n == input@.len() / 2,
            input@.len() > 0,
            out@.len() == i,
            forall|j: int| 0 <= j < i ==> out@[j] == parsed_hex(input@)[j],
            forall|j: int| 0 <= j < 2 * i ==> nibble_of(#[trigger] input@[j]) is Some,
        decreases n - i,
    {
        let high: u8 = match hex_nibble(input[2 * i]) {
            Some(high) => high,
            None => {
                assert(nibble_of(input@[2 * i as int]) is None);
                return Err("hex payload contains a non-hex digit");
            },
        };
        let low: u8 = match hex_nibble(input[2 * i + 1]) {
            Some(low) => low,
            None => {
                assert(nibble_of(input@[2 * i + 1]) is None);
                return Err("hex payload contains a non-hex digit");
            },
        };
        out.push(16 * high + low);
        i = i + 1;
    }
    assert(out@ =~= parsed_hex(input@));
    Ok(out)
}

/// The lower-case hexadecimal digit of a number below sixteen.
pub open spec fn hex_digit_of(n: int) -> char {
    if n < 10 {
        (48 + n) as char
    } else {
        (87 + n) as char
    }
}

/// The lower-case hexadecimal digit of a number below sixteen.
fn hex_digit(n: u64) -> (r: char)
    requires
        n < 16,
    ensures
        r == hex_digit_of(n as int),
{
    match n {
        0 => '0',
        1 => '1',
        2 => '2',
        3 => '3',
        4 => '4',
        5 => '5',
        6 => '6',
        7 => '7',
        8 => '8',
        9 => '9',
        10 => 'a',
        11 => 'b',
        12 => 'c',
        13 => 'd',
        14 => 'e',
        _ => 'f',
    }
}

/// Bytes as lower-case hexadecimal digits, two for each.
pub open spec fn hex_of(bytes: Seq<u8>) -> Seq<char> {
    Seq::new(
        2 * bytes.len(),
        |i: int|
            if i % 2 == 0 {
                hex_digit_of(bytes[i / 2] as int / 16)
            } else {
                hex_digit_of(bytes[i / 2] as int % 16)
            },
    )
}

/// Writes bytes as lower-case hexadecimal digits.
pub fn hex(bytes: &[u8]) -> (r: String)
    ensures
        r@ == hex_of(bytes@),
{
    let mut out = String::new();
    let mut i: usize = 0;
    assert(out@ =~= hex_of(bytes@.take(0)));
    while i < bytes.len()
        invariant
            i <= bytes@.len(),
            out@ == hex_of(bytes@.take(i as int)),
        decreases bytes@.len() - i,
    {
        let byte: u64 = bytes[i] as u64;
        out.push(hex_digit(byte / 16));
        out.push(hex_digit(byte % 16));
        assert(out@ =~= hex_of(bytes@.take(i + 1)));
        i = i + 1;
    }
    assert(bytes@.take(i as int) =~= bytes@);
    out
}

/// Writes a GUID as digits of a fixed number.
pub fn format_guid(guid: [u8; 16]) -> (r: String)
    ensures
        r@ == hex_of(guid@),
        r@.len() == 32,
{
    hex(&guid)
}

/// A hexadecimal digit is read as the number it was written for.
proof fn lemma_nibble_roundtrip(n: int)
    requires
        0 <= n < 16,
    ensures
        (hex_digit_of(n) as u32) < 128,
        nibble_of((hex_digit_of(n) as u32) as u8) == Some(n as u8),
{
}

/// Reading back what was written for some bytes gives those bytes.
pub proof fn law_hex_roundtrip(bytes: Seq<u8>)
    requires
        bytes.len() > 0,
    ensures
        hex_error(encode_utf8(hex_of(bytes))) is None,
        parsed_hex(encode_utf8(hex_of(bytes))) == bytes,
{
    let text = hex_of(bytes);
    assert forall|i: int| 0 <= i < text.len() implies (#[trigger] text[i] as u32) < 128 by {
        let b = bytes[i / 2] as int;
        lemma_nibble_roundtrip(b / 16);
        lemma_nibble_roundtrip(b % 16);
    }
    assert(vstd::utf8::is_ascii_chars(text));
    vstd::utf8::is_ascii_chars_encode_utf8(text);
    let digits = encode_utf8(text);
    assert forall|i: int| 0 <= i < bytes.len() implies parsed_hex(digits)[i] == bytes[i]
        && nibble_of(digits[2 * i]) is Some && nibble_of(digits[2 * i + 1]) is Some by {
        let b = bytes[i] as int;
        lemma_nibble_roundtrip(b / 16);
        lemma_nibble_roundtrip(b % 16);
        assert(text[2 * i] == hex_digit_of(b / 16));
        assert(text[2 * i + 1] == hex_digit_of(b % 16));
    }
    assert forall|i: int| 0 <= i < digits.len() implies nibble_of(#[trigger] digits[i]) is Some by {
        let k = i / 2;
        assert(i == 2 * k || i == 2 * k + 1);
        assert(parsed_hex(digits)[k] == bytes[k]);
    }
    assert(parsed_hex(digits) =~= bytes);
}

/// A number in lower-case hexadecimal.
pub open spec fn lower_hex_of(n: nat) -> Seq<char>
    decreases n,
{
    if n < 16 {
        seq![hex_digit_of(n as int)]
    } else {
        lower_hex_of(n / 16).push(hex_digit_of((n % 16) as int))
    }
}

/// A number in lower-case hexadecimal with its prefix.
pub open spec fn offset_text(n: u64) -> Seq<char> {
    "0x"@ + lower_hex_of(n as nat)
}

/// Appends a number in lower-case hexadecimal.
fn append_lower_hex(out: &mut String, n: u64)
    ensures
        final(out)@ == old(out)@ + lower_hex_of(n as nat),
    decreases n,
{
    if n < 16 {
        out.push(hex_digit(n));
        assert(out@ =~= old(out)@ + lower_hex_of(n as nat));
    } else {
        append_lower_hex(out, n / 16);
        out.push(hex_digit(n % 16));
        assert(out@ =~= old(out)@ + lower_hex_of(n as nat));
    }
}

/// Appends a number in lower-case hexadecimal with its prefix.
fn append_offset(out: &mut String, n: u64)
    ensures
        final(out)@ == old(out)@ + offset_text(n),
{
    append_text(out, "0x");
    append_lower_hex(out, n);
    assert(out@ =~= old(out)@ + offset_text(n));
}

/// The name of a dialect.
pub open spec fn dialect_text(dialect: Dialect) -> &'static str {
    match dialect {
        Dialect::Smb202 => "SMB 2.0.2",
        Dialect::Smb210 => "SMB 2.1",
        Dialect::Smb300 => "SMB 3.0",
        Dialect::Smb302 => "SMB 3.0.2",
        Dialect::Smb311 => "SMB 3.1.1",
    }
}

/// The name of a dialect.
pub fn dialect_name(dialect: Dialect) -> (r: &'static str)
    ensures
        r == dialect_text(dialect),
{
    match dialect {
        Dialect::Smb202 => "SMB 2.0.2",
        Dialect::Smb210 => "SMB 2.1",
        Dialect::Smb300 => "SMB 3.0",
        Dialect::Smb302 => "SMB 3.0.2",
        Dialect::Smb311 => "SMB 3.1.1",
    }
}

/// A dash stands for an empty argument.
pub fn dash_to_empty(value: String) -> (r: String)
    ensures
        r@ == (if value@ == seq!['-'] {
            Seq::<char>::empty()
        } else {
            value@
        }),
{
    let bytes = value.as_str().as_bytes();
    let dash: bool = bytes.len() == 1 && bytes[0] == 45;
    proof {
        lemma_dash(value@);
    }
    if dash {
        let empty = String::new();
        assert(empty@ =~= Seq::<char>::empty());
        empty
    } else {
        value
    }
}

/// A text is a dash where its only byte is one.
proof fn lemma_dash(s: Seq<char>)
    ensures
        encode_utf8(s) == seq![45u8] <==> s == seq!['-'],
{
    let dash = seq!['-'];
    assert(vstd::utf8::is_ascii_chars(dash));
    vstd::utf8::is_ascii_chars_encode_utf8(dash);
    assert(encode_utf8(dash) =~= seq![45u8]);
    vstd::utf8::encode_utf8_decode_utf8(s);
    vstd::utf8::encode_utf8_decode_utf8(dash);
}

/// The reads that a verification makes.
#[derive(Debug, Clone, Copy, PartialEq, Eq, Structural)]
pub enum ReadKind {
    Direct,
    Pipelined,
    Engine,
}

/// Why a verification failed.
#[derive(Debug)]
pub enum VerifyError {
    EmptyPayload,
    EmptyReconnectPayload,
    OffsetOverflow,
    OutsideFile { offset: u64, end: u64, file_len: u64 },
    Mismatch { kind: ReadKind, offset: u64, expected: Vec<u8>, got: Vec<u8> },
    DirectDataPastEnd,
    PipelinedDataPastEnd,
}

impl VerifyError {
    /// The text that describes an error.
    pub open spec fn message(self) -> Seq<char> {
        match self {
            VerifyError::EmptyPayload => "verify expected hex payload must not be empty"@,
            VerifyError::EmptyReconnectPayload => "reconnect expected payloads must not be empty"@,
            VerifyError::OffsetOverflow => "verification offset overflow"@,
            VerifyError::OutsideFile { offset, end, file_len } => "verification range "@
                + offset_text(offset) + ".."@ + offset_text(end) + " exceeds file length "@
                + offset_text(file_len),
            VerifyError::Mismatch { kind, offset, expected, got } => mismatch_text(kind)@
                + offset_text(offset) + ": expected "@ + hex_of(expected@) + ", got "@ + hex_of(
                got@,
            ),
            VerifyError::DirectDataPastEnd => "direct read at EOF returned data"@,
            VerifyError::PipelinedDataPastEnd => "pipelined read at EOF returned data"@,
        }
    }

    /// Describes the error.
    pub fn to_text(&self) -> (r: String)
        ensures
            r@ == self.message(),
    {
        match self {
            VerifyError::EmptyPayload => copy_text("verify expected hex payload must not be empty"),
            VerifyError::EmptyReconnectPayload => copy_text(
                "reconnect expected payloads must not be empty",
            ),
            VerifyError::OffsetOverflow => copy_text("verification offset overflow"),
            VerifyError::OutsideFile { offset, end, file_len } => {
                let mut out = copy_text("verification range ");
                append_offset(&mut out, *offset);
                append_text(&mut out, "..");
                append_offset(&mut out, *end);
                append_text(&mut out, " exceeds file length ");
                append_offset(&mut out, *file_len);
                out
            },
            VerifyError::Mismatch { kind, offset, expected, got } => {
                let mut out = copy_text(
                    match kind {
                        ReadKind::Direct => "direct read mismatch at offset ",
                        ReadKind::Pipelined => "pipelined read mismatch at offset ",
                        ReadKind::Engine => "Android engine read mismatch at offset ",
                    },
                );
                append_offset(&mut out, *offset);
                append_text(&mut out, ": expected ");
                append_text(&mut out, hex(expected.as_slice()).as_str());
                append_text(&mut out, ", got ");
                append_text(&mut out, hex(got.as_slice()).as_str());
                out
            },
            VerifyError::DirectDataPastEnd => copy_text("direct read at EOF returned data"),
            VerifyError::PipelinedDataPastEnd => copy_text("pipelined read at EOF returned data"),
        }
    }
}

/// How the report of a mismatch begins.
pub open spec fn mismatch_text(kind: ReadKind) -> &'static str {
    match kind {
        ReadKind::Direct => "direct read mismatch at offset ",
        ReadKind::Pipelined => "pipelined read mismatch at offset ",
        ReadKind::Engine => "Android engine read mismatch at offset ",
    }
}

/// Checks that there is something to verify.
pub fn check_payload(expected: &[u8]) -> (r: Result<(), VerifyError>)
    ensures
        r == (if expected@.len() == 0 {
            Err(VerifyError::EmptyPayload)
        } else {
            Ok(())
        }),
{
    if expected.len() == 0 {
        Err(VerifyError::EmptyPayload)
    } else {
        Ok(())
    }
}

/// Checks that there is something to verify before and after a reconnect.
pub fn check_reconnect_payloads(first: &[u8], second: &[u8]) -> (r: Result<(), VerifyError>)
    ensures
        r == (if first@.len() == 0 || second@.len() == 0 {
            Err(VerifyError::EmptyReconnectPayload)
        } else {
            Ok(())
        }),
{
    if first.len() == 0 || second.len() == 0 {
        Err(VerifyError::EmptyReconnectPayload)
    } else {
        Ok(())
    }
}

/// Why a range of a file cannot be read whole, if it cannot.
pub open spec fn range_error(offset: u64, length: usize, file_len: u64) -> Option<VerifyError> {
    if offset + length > u64::MAX {
        Some(VerifyError::OffsetOverflow)
    } else if offset + length > file_len {
        Some(VerifyError::OutsideFile { offset, end: (offset + length) as u64, file_len })
    } else {
        None
    }
}

/// Checks that what is verified lies inside the file.
pub fn check_range(offset: u64, length: usize, file_len: u64) -> (r: Result<(), VerifyError>)
    ensures
        match range_error(offset, length, file_len) {
            Some(e) => r == Err::<(), VerifyError>(e),
            None => r is Ok,
        },
{
    match offset.checked_add(length as u64) {
        None => Err(VerifyError::OffsetOverflow),
        Some(end) => {
            if end > file_len {
                Err(VerifyError::OutsideFile { offset, end, file_len })
            } else {
                Ok(())
            }
        },
    }
}

/// Checks that what was read is what was expected.
pub fn check_read(kind: ReadKind, offset: u64, expected: &[u8], got: &[u8]) -> (r: Result<
    (),
    VerifyError,
>)
    ensures
        if got@ == expected@ {
            r is Ok
        } else {
            &&& r is Err
            &&& r->Err_0 is Mismatch
            &&& r->Err_0->kind == kind
            &&& r->Err_0->Mismatch_offset == offset
            &&& r->Err_0->expected@ == expected@
            &&& r->Err_0->got@ == got@
        },
{
    if same_bytes(got, expected) {
        Ok(())
    } else {
        Err(
            VerifyError::Mismatch {
                kind,
                offset,
                expected: copy_bytes(expected),
                got: copy_bytes(got),
            },
        )
    }
}

/// Checks that neither read gave anything at the end of the file.
pub fn check_past_end(direct: &[u8], pipelined: &[u8]) -> (r: Result<(), VerifyError>)
    ensures
        r == (if direct@.len() > 0 {
            Err(VerifyError::DirectDataPastEnd)
        } else if pipelined@.len() > 0 {
            Err(VerifyError::PipelinedDataPastEnd)
        } else {
            Ok(())
        }),
{
    if direct.len() > 0 {
        Err(VerifyError::DirectDataPastEnd)
    } else if pipelined.len() > 0 {
        Err(VerifyError::PipelinedDataPastEnd)
    } else {
        Ok(())
    }
}

} // verus!
