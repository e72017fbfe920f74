//! Byte orders, frames and digits, in the numbers that they stand for.

use crate::bytes::be32;
use crate::bytes::le16;
use crate::bytes::le32;
use crate::bytes::le64;
use crate::bytes::u16_at;
use crate::bytes::u32_at;
use crate::bytes::u64_at;
use crate::client::error::ClientError;
use crate::client::transport::taken;
use crate::probe::hex_digit_of;
use crate::probe::hex_of;
use crate::probe::lower_hex_of;
use crate::probe::nibble_of;
use crate::text::decimal_of;
use crate::text::unit_bytes;
use crate::text::units_of;
use crate::text::utf16_of;
use crate::text::utf16_text;
use crate::text::utf16le_of;
use crate::text::utf16le_text_of;
use crate::wire::framing::announced_length;
use crate::wire::framing::frame_of;
use vstd::prelude::*;

verus! {

/// Numbers in messages stand with their least significant byte first.
pub proof fn law_little_endian(s: Seq<u8>, i: int)
    requires
        0 <= i,
        i + 8 <= s.len(),
    ensures
        u16_at(s, i) == s[i] + 256 * s[i + 1],
        u32_at(s, i) == s[i] + 256 * s[i + 1] + 65_536 * s[i + 2] + 16_777_216 * s[i + 3],
        u64_at(s, i) == s[i] + 256 * s[i + 1] + 65_536 * s[i + 2] + 16_777_216 * s[i + 3]
            + 4_294_967_296 * (s[i + 4] + 256 * s[i + 5] + 65_536 * s[i + 6] + 16_777_216 * s[i
            + 7]),
{
    reveal(u16_at);
    reveal(u32_at);
    reveal(u64_at);
}

/// The bytes of a number are its digits to the base 256, least significant first, and most significant
/// first in the key derivation.
pub proof fn law_number_bytes(a: u16, b: u32, c: u64)
    ensures
        le16(a).len() == 2,
        le16(a)[0] + 256 * le16(a)[1] == a,
        le32(b).len() == 4,
        le32(b)[0] + 256 * le32(b)[1] + 65_536 * le32(b)[2] + 16_777_216 * le32(b)[3] == b,
        be32(b).len() == 4,
        be32(b)[3] + 256 * be32(b)[2] + 65_536 * be32(b)[1] + 16_777_216 * be32(b)[0] == b,
        le64(c).len() == 8,
        le64(c).take(4) == le32((c % 0x1_0000_0000) as u32),
        le64(c).skip(4) == le32((c / 0x1_0000_0000) as u32),
{
    broadcast use crate::bytes::group_byte_layout;

    reveal(le16);
    assert(u32_at(le32(b), 0) == b);
    assert(le32(b)[0] + 256 * le32(b)[1] + 65_536 * le32(b)[2] + 16_777_216 * le32(b)[3] == b) by {
        reveal(u32_at);
    }
    assert(be32(b)[3] == le32(b)[0] && be32(b)[2] == le32(b)[1] && be32(b)[1] == le32(b)[2]
        && be32(b)[0] == le32(b)[3]) by {
        reveal(be32);
        reveal(le32);
    }
    assert(be32(b).len() == 4) by {
        reveal(be32);
    }
    assert(le64(c).len() == 8);
    assert(le64(c).take(4) =~= le32((c % 0x1_0000_0000) as u32)) by {
        reveal(le64);
    }
    assert(le64(c).skip(4) =~= le32((c / 0x1_0000_0000) as u32)) by {
        reveal(le64);
    }
}

/// A frame is a zero, the length of its payload in three bytes, most significant first, and the payload.
pub proof fn law_frame(payload: Seq<u8>)
    requires
        payload.len() < 16_777_216,
    ensures
        ({
            let frame = frame_of(payload);
            &&& frame.len() == 4 + payload.len()
            &&& frame[0] == 0
            &&& 65_536 * frame[1] + 256 * frame[2] + frame[3] == payload.len()
            &&& frame.skip(4) == payload
        }),
{
    let n = payload.len() as int;
    assert(frame_of(payload).skip(4) =~= payload);
    assert(n / 65_536 < 256);
    assert(n / 256 / 256 == n / 65_536);
    assert(n == 256 * (n / 256) + n % 256);
    assert(n / 256 == 256 * (n / 65_536) + n / 256 % 256);
}

/// Of received bytes a message is taken if and only if they begin with a zero, a length in three bytes,
/// most significant first, within the limit, and all of it; what follows it stays. A length above the
/// limit or another first byte is refused, and nothing is taken; otherwise it is waited for.
pub proof fn law_frame_is_taken(limit: usize, received: Seq<u8>)
    ensures
        ({
            let n = 65_536 * received[1] + 256 * received[2] + received[3];
            let (message, rest) = taken(limit, received);
            let whole = received.len() >= 4 && received[0] == 0 && n <= limit && received.len() >= 4
                + n;
            &&& message is Err <==> received.len() >= 4 && (received[0] != 0 || n > limit)
            &&& whole ==> message == Ok::<_, ClientError>(Some(received.subrange(4, 4 + n)))
                && rest == received.skip(4 + n)
            &&& !whole ==> rest == received && (message is Ok ==> message->Ok_0 is None)
        }),
{
    let n = announced_length(received);
    if received.len() >= 4 && received.len() >= 4 + n {
        assert(received.subrange(4 + n, received.len() as int) =~= received.skip(4 + n));
    }
}

/// The number that decimal digits stand for.
pub open spec fn decimal_value(digits: Seq<char>) -> int
    decreases digits.len(),
{
    if digits.len() == 0 {
        0
    } else {
        10 * decimal_value(digits.drop_last()) + (digits.last() as int - '0' as int)
    }
}

/// A number in decimal is made of the digits `0` to `9`, stands for the number, and has no zero in front
/// unless it is the zero.
pub proof fn law_decimal(n: nat)
    ensures
        decimal_of(n).len() > 0,
        forall|i: int| 0 <= i < decimal_of(n).len() ==> '0' <= #[trigger] decimal_of(n)[i] <= '9',
        decimal_value(decimal_of(n)) == n,
        n > 0 ==> decimal_of(n)[0] != '0',
    decreases n,
{
    let digits = decimal_of(n);
    reveal_with_fuel(decimal_value, 2);
    if n < 10 {
        assert(digits.drop_last() =~= Seq::empty());
    } else {
        law_decimal(n / 10);
        assert(digits.drop_last() =~= decimal_of(n / 10));
        assert(digits[0] == decimal_of(n / 10)[0]);
        assert forall|i: int| 0 <= i < digits.len() implies '0' <= #[trigger] digits[i] <= '9' by {
            if i < digits.len() - 1 {
                assert(digits[i] == decimal_of(n / 10)[i]);
            }
        }
    }
}

/// The hexadecimal digits are `0` to `9` and `a` to `f`, and each is read as the number it is written
/// for; upper-case letters are read as the lower-case ones.
pub proof fn law_hex_digits(n: int, byte: u8)
    requires
        0 <= n < 16,
    ensures
        hex_digit_of(n) == "0123456789abcdef"@[n],
        nibble_of(hex_digit_of(n) as u8) == Some(n as u8),
        nibble_of(byte) is Some <==> ('0' as int <= byte <= '9' as int) || ('a' as int <= byte
            <= 'f' as int) || ('A' as int <= byte <= 'F' as int),
        'A' as int <= byte <= 'F' as int ==> nibble_of(byte) == nibble_of((byte + 32) as u8),
{
    reveal_strlit("0123456789abcdef");
}

/// Bytes are written in hexadecimal in their order, the high half of each first.
pub proof fn law_hex_of_bytes(bytes: Seq<u8>, i: int)
    requires
        0 <= i < bytes.len(),
    ensures
        hex_of(bytes).len() == 2 * bytes.len(),
        bytes[i] == 16 * nibble_of(hex_of(bytes)[2 * i] as u8)->0 + nibble_of(
            hex_of(bytes)[2 * i + 1] as u8,
        )->0,
{
    law_hex_digits(bytes[i] as int / 16, 0);
    law_hex_digits(bytes[i] as int % 16, 0);
}

/// The number that hexadecimal digits stand for.
pub open spec fn hex_value(digits: Seq<char>) -> int
    decreases digits.len(),
{
    if digits.len() == 0 {
        0
    } else {
        16 * hex_value(digits.drop_last()) + nibble_of(digits.last() as u8)->0
    }
}

/// A number in hexadecimal stands for the number, and has no zero in front unless it is the zero.
pub proof fn law_lower_hex(n: nat)
    ensures
        lower_hex_of(n).len() > 0,
        hex_value(lower_hex_of(n)) == n,
        n > 0 ==> lower_hex_of(n)[0] != '0',
    decreases n,
{
    let digits = lower_hex_of(n);
    reveal_with_fuel(hex_value, 2);
    law_hex_digits((n % 16) as int, 0);
    if n < 16 {
        assert(digits.drop_last() =~= Seq::empty());
    } else {
        law_lower_hex(n / 16);
        assert(digits.drop_last() =~= lower_hex_of(n / 16));
        assert(digits[0] == lower_hex_of(n / 16)[0]);
    }
}

/// The UTF-16 bytes of a text are those of its parts, one behind the other.
pub proof fn law_utf16_of_parts(a: Seq<char>, b: Seq<char>)
    ensures
        utf16_of(a + b) == utf16_of(a) + utf16_of(b),
        utf16le_of(a + b) == utf16le_of(a) + utf16le_of(b),
    decreases a.len(),
{
    if a.len() == 0 {
        assert(a + b =~= b);
        assert(utf16_of(a) + utf16_of(b) =~= utf16_of(b));
    } else {
        law_utf16_of_parts(a.drop_first(), b);
        assert((a + b).drop_first() =~= a.drop_first() + b);
        assert((a + b)[0] == a[0]);
        assert(utf16_of(a + b) =~= utf16_of(a) + utf16_of(b));
    }
    assert(unit_bytes(utf16_of(a) + utf16_of(b)) =~= unit_bytes(utf16_of(a)) + unit_bytes(
        utf16_of(b),
    ));
}

/// A character below 0x10000 is one unit of two bytes, least significant first; one above is a pair: what
/// is above 0x10000 in two halves of ten bits, the higher one on 0xD800, the lower one on 0xDC00.
pub proof fn law_utf16_of_a_character(c: char)
    ensures
        ({
            let b = utf16le_of(seq![c]);
            let n = c as int;
            if n < 0x10000 {
                b.len() == 2 && b[0] + 256 * b[1] == n
            } else {
                &&& b.len() == 4
                &&& 0xD800 <= b[0] + 256 * b[1] < 0xDC00
                &&& 0xDC00 <= b[2] + 256 * b[3] < 0xE000
                &&& n == 0x10000 + 0x400 * (b[0] + 256 * b[1] - 0xD800) + (b[2] + 256 * b[3]
                    - 0xDC00)
            }
        }),
{
    reveal_with_fuel(utf16_of, 2);
    let text = seq![c];
    assert(text.drop_first() =~= Seq::empty());
    let units = utf16_of(text);
    assert(units =~= crate::text::char_units(c));
    let b = utf16le_of(text);
    assert(b[0] == (units[0] % 256) as u8 && b[1] == (units[0] / 256) as u8);
    if c as int >= 0x10000 {
        assert(b[2] == (units[1] % 256) as u8 && b[3] == (units[1] / 256) as u8);
    }
}

/// Code units that are read as a text are the code units of that text, so that nothing that stands for no
/// text is read, and no two of them are read alike.
pub proof fn law_units_are_those_of_their_text(units: Seq<u16>)
    ensures
        utf16_text(units) is Some ==> utf16_of(utf16_text(units)->0) == units,
    decreases units.len(),
{
    if units.len() > 0 && utf16_text(units) is Some {
        let text = utf16_text(units)->0;
        let paired = 0xD800 <= units[0] < 0xDC00;
        let n: int = if paired {
            2
        } else {
            1
        };
        let rest = units.skip(n);
        assert(units.drop_first() =~= units.skip(1));
        assert(units.subrange(2, units.len() as int) =~= units.skip(2));
        law_units_are_those_of_their_text(rest);
        assert(text.drop_first() =~= utf16_text(rest)->0);
        if paired {
            let code = 0x10000 + (units[0] - 0xD800) * 0x400 + (units[1] - 0xDC00);
            assert(text[0] as u32 == code);
            assert((code - 0x10000) / 0x400 == units[0] - 0xD800);
            assert((code - 0x10000) % 0x400 == units[1] - 0xDC00);
        } else {
            assert(text[0] as u32 == units[0]);
        }
        assert(utf16_of(text) =~= units);
    } else if units.len() == 0 {
        assert(utf16_of(Seq::empty()) =~= units);
    }
}

/// Bytes that are read as a text are the bytes of that text; an odd number of them is read as none.
pub proof fn law_bytes_are_those_of_their_text(bytes: Seq<u8>)
    ensures
        utf16le_text_of(bytes) is Some ==> utf16le_of(utf16le_text_of(bytes)->0) == bytes,
        bytes.len() % 2 != 0 ==> utf16le_text_of(bytes) is None,
{
    if utf16le_text_of(bytes) is Some {
        let units = units_of(bytes);
        law_units_are_those_of_their_text(units);
        assert forall|i: int| 0 <= i < bytes.len() implies #[trigger] unit_bytes(units)[i]
            == bytes[i] by {
            reveal(u16_at);
            assert(units[i / 2] == u16_at(bytes, 2 * (i / 2)));
        }
        assert(unit_bytes(units) =~= bytes);
    }
}

} // verus!
