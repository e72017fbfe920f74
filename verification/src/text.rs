//! UTF-16 and small text operations.

use crate::bytes::get_u16;
use crate::bytes::u16_at;
use vstd::prelude::*;

verus! {

/// The UTF-16 code units of one character.
pub open spec fn char_units(c: char) -> Seq<u16> {
    if (c as u32) < 0x10000 {
        seq![(c as u32) as u16]
    } else {
        seq![
            (0xD800 + (c as u32 - 0x10000) / 0x400) as u16,
            (0xDC00 + (c as u32 - 0x10000) % 0x400) as u16,
        ]
    }
}

/// The UTF-16 code units of a text.
pub open spec fn utf16_of(s: Seq<char>) -> Seq<u16>
    decreases s.len(),
{
    if s.len() == 0 {
        Seq::empty()
    } else {
        char_units(s[0]) + utf16_of(s.drop_first())
    }
}

/// The bytes of code units, each least significant first.
pub open spec fn unit_bytes(units: Seq<u16>) -> Seq<u8> {
    Seq::new(
        2 * units.len(),
        |i: int| if i % 2 == 0 { (units[i / 2] % 256) as u8 } else { (units[i / 2] / 256) as u8 },
    )
}

/// The UTF-16 bytes of a text, each code unit least significant byte first.
pub open spec fn utf16le_of(s: Seq<char>) -> Seq<u8> {
    unit_bytes(utf16_of(s))
}

/// Whether a code unit is the first half of a surrogate pair.
pub open spec fn is_high_surrogate(u: u16) -> bool {
    0xD800 <= u < 0xDC00
}

/// Whether a code unit is the second half of a surrogate pair.
pub open spec fn is_low_surrogate(u: u16) -> bool {
    0xDC00 <= u < 0xE000
}

/// The character that a surrogate pair stands for.
pub open spec fn surrogate_char(high: u16, low: u16) -> char {
    (0x10000 + (high - 0xD800) * 0x400 + (low - 0xDC00)) as char
}

/// The text that code units stand for, or `None` where a surrogate stands alone.
pub open spec fn utf16_text(units: Seq<u16>) -> Option<Seq<char>>
    decreases units.len(),
{
    if units.len() == 0 {
        Some(Seq::empty())
    } else if !is_high_surrogate(units[0]) && !is_low_surrogate(units[0]) {
        match utf16_text(units.drop_first()) {
            Some(rest) => Some(seq![units[0] as char] + rest),
            None => None,
        }
    } else if is_high_surrogate(units[0]) && units.len() >= 2 && is_low_surrogate(units[1]) {
        match utf16_text(units.subrange(2, units.len() as int)) {
            Some(rest) => Some(seq![surrogate_char(units[0], units[1])] + rest),
            None => None,
        }
    } else {
        None
    }
}

/// A character is a code point outside the surrogate range.
proof fn lemma_char_range(c: char)
    ensures
        c as u32 <= 0x10FFFF,
        (c as u32) as char == c,
        (c as u32) < 0x10000 ==> ((c as u32) as u16) as char == c,
        !(0xD800 <= c as u32 && (c as u32) < 0xE000),
{
}

/// The text of a text's code units is the text.
pub proof fn law_utf16_roundtrip(s: Seq<char>)
    ensures
        utf16_text(utf16_of(s)) == Some(s),
    decreases s.len(),
{
    if s.len() > 0 {
        let units = utf16_of(s);
        let rest = s.drop_first();
        law_utf16_roundtrip(rest);
        lemma_char_range(s[0]);
        assert(seq![s[0]] + rest =~= s);
        if (s[0] as u32) < 0x10000 {
            assert(units.drop_first() =~= utf16_of(rest));
            assert(units[0] == (s[0] as u32) as u16);
        } else {
            assert(units.subrange(2, units.len() as int) =~= utf16_of(rest));
            assert(units[0] == char_units(s[0])[0]);
            assert(units[1] == char_units(s[0])[1]);
            assert(surrogate_char(units[0], units[1]) == s[0]);
        }
    }
}

/// Code units of a text with one more character at its end.
proof fn lemma_utf16_push(s: Seq<char>, c: char)
    ensures
        utf16_of(s.push(c)) == utf16_of(s) + char_units(c),
    decreases s.len(),
{
    let pushed = s.push(c);
    if s.len() == 0 {
        assert(pushed.drop_first() =~= Seq::<char>::empty());
        assert(utf16_of(pushed.drop_first()) =~= Seq::<u16>::empty());
        assert(utf16_of(pushed) =~= utf16_of(s) + char_units(c));
    } else {
        lemma_utf16_push(s.drop_first(), c);
        assert(pushed.drop_first() =~= s.drop_first().push(c));
        assert(utf16_of(pushed) =~= utf16_of(s) + char_units(c));
    }
}

/// Appends the bytes of one code unit.
fn push_unit(out: &mut Vec<u8>, unit: u16)
    ensures
        final(out)@ == old(out)@ + seq![(unit % 256) as u8, (unit / 256) as u8],
{
    out.push((unit % 256) as u8);
    out.push((unit / 256) as u8);
    assert(out@ =~= old(out)@ + seq![(unit % 256) as u8, (unit / 256) as u8]);
}

/// Bytes of code units with one more unit at their end.
proof fn lemma_unit_bytes_push(units: Seq<u16>, unit: u16)
    ensures
        unit_bytes(units.push(unit)) == unit_bytes(units) + seq![
            (unit % 256) as u8,
            (unit / 256) as u8,
        ],
{
    assert(unit_bytes(units.push(unit)) =~= unit_bytes(units) + seq![
        (unit % 256) as u8,
        (unit / 256) as u8,
    ]);
}

/// Encodes a text as UTF-16, each code unit least significant byte first.
pub fn utf16le(value: &str) -> (r: Vec<u8>)
    ensures
        r@ == utf16le_of(value@),
{
    let mut out: Vec<u8> = Vec::new();
    assert(out@ =~= unit_bytes(Seq::empty()));
    for c in iter: value.chars()
        invariant
            out@ == unit_bytes(utf16_of(iter.seq().take(iter.index()))),
    {
        let code: u32 = c as u32;
        proof {
            lemma_char_range(c);
        }
        if code < 0x10000 {
            push_unit(&mut out, code as u16);
            proof {
                let before = utf16_of(iter.seq().take(iter.index()));
                lemma_unit_bytes_push(before, code as u16);
                assert(before + char_units(c) =~= before.push(code as u16));
            }
        } else {
            let v: u32 = code - 0x10000;
            let high: u16 = (0xD800 + v / 0x400) as u16;
            let low: u16 = (0xDC00 + v % 0x400) as u16;
            push_unit(&mut out, high);
            push_unit(&mut out, low);
            proof {
                let before = utf16_of(iter.seq().take(iter.index()));
                lemma_unit_bytes_push(before, high);
                lemma_unit_bytes_push(before.push(high), low);
                assert(before + char_units(c) =~= before.push(high).push(low));
            }
        }
        proof {
            let done = iter.seq().take(iter.index());
            lemma_utf16_push(done, c);
            assert(iter.seq().take(iter.index() + 1) =~= done.push(c));
        }
    }
    assert(value@.take(value@.len() as int) =~= value@);
    out
}

/// `String::from_utf16`: the text that the code units stand for, or an error where a surrogate
/// stands alone.
#[verifier::external_body]
pub(crate) fn text_from_utf16(units: &[u16]) -> (r: Option<String>)
    ensures
        r is Some <==> utf16_text(units@) is Some,
        r is Some ==> r->0@ == utf16_text(units@)->0,
{
    String::from_utf16(units).ok()
}

/// The code units whose bytes are given, each least significant byte first.
pub open spec fn units_of(bytes: Seq<u8>) -> Seq<u16> {
    Seq::new(bytes.len() / 2, |i: int| u16_at(bytes, 2 * i))
}

/// The text whose UTF-16 bytes are given, or `None` where a byte or a surrogate stands alone.
pub open spec fn utf16le_text_of(bytes: Seq<u8>) -> Option<Seq<char>> {
    if bytes.len() % 2 != 0 {
        None
    } else {
        utf16_text(units_of(bytes))
    }
}

/// Decodes UTF-16 bytes, each code unit least significant byte first.
pub fn text_from_utf16le(bytes: &[u8]) -> (r: Option<String>)
    ensures
        r is Some <==> utf16le_text_of(bytes@) is Some,
        r is Some ==> r->0@ == utf16le_text_of(bytes@)->0,
{
    if bytes.len() % 2 != 0 {
        return None;
    }
    let n: usize = bytes.len() / 2;
    let mut units: Vec<u16> = Vec::new();
    let mut i: usize = 0;
    while i < n
        invariant
            i <= n,
            n == bytes@.len() / 2,
            bytes@.len() <= usize::MAX,
            units@.len() == i,
            forall|j: int| 0 <= j < i ==> units@[j] == u16_at(bytes@, 2 * j),
        decreases n - i,
    {
        units.push(get_u16(bytes, 2 * i));
        i = i + 1;
    }
    assert(units@ =~= units_of(bytes@));
    text_from_utf16(&units)
}

/// Decoding the UTF-16 bytes of a text gives the text back.
pub proof fn law_utf16le_roundtrip(s: Seq<char>)
    ensures
        utf16le_text_of(utf16le_of(s)) == Some(s),
{
    reveal(u16_at);
    let bytes = utf16le_of(s);
    assert(bytes.len() == 2 * utf16_of(s).len());
    assert forall|i: int| 0 <= i < utf16_of(s).len() implies #[trigger] u16_at(bytes, 2 * i)
        == utf16_of(s)[i] by {
        assert(bytes[2 * i] == (utf16_of(s)[i] % 256) as u8);
        assert(bytes[2 * i + 1] == (utf16_of(s)[i] / 256) as u8);
    }
    assert(units_of(bytes) =~= utf16_of(s));
    law_utf16_roundtrip(s);
}

/// The upper-case form of a text.
pub uninterp spec fn uppercase_of(s: Seq<char>) -> Seq<char>;

/// `str::to_uppercase`: a function of the text alone.
#[verifier::external_body]
pub(crate) fn uppercase(s: &str) -> (r: String)
    ensures
        r@ == uppercase_of(s@),
{
    s.to_uppercase()
}

/// The debug form of a text: in quotes, with what would break them or does not print escaped.
pub uninterp spec fn debug_text_of(s: Seq<char>) -> Seq<char>;

/// `<str as Debug>::fmt`: a function of the text alone. Which characters it escapes, and how, is not
/// stated: that rests on tables of the standard library.
#[verifier::external_body]
pub(crate) fn debug_text(s: &str) -> (r: String)
    ensures
        r@ == debug_text_of(s@),
{
    format!("{s:?}")
}

/// `String::push`: appends one character.
pub assume_specification[ String::push ](s: &mut String, c: char)
    ensures
        final(s)@ == old(s)@.push(c),
;

/// Whether a text begins with another.
pub open spec fn text_begins_with(s: Seq<char>, prefix: Seq<char>) -> bool {
    prefix.len() <= s.len() && s.take(prefix.len() as int) == prefix
}

/// Appends a text to another.
pub fn append_text(out: &mut String, more: &str)
    ensures
        final(out)@ == old(out)@ + more@,
{
    let ghost before = out@;
    assert(before + Seq::<char>::empty() =~= before);
    for c in iter: more.chars()
        invariant
            out@ == before + iter.seq().take(iter.index()),
    {
        out.push(c);
        assert(iter.seq().take(iter.index() + 1) =~= iter.seq().take(iter.index()).push(c));
    }
}

/// A text with one more character at its end holds what it held, and that character.
proof fn lemma_contains_push(s: Seq<char>, c: char, wanted: char)
    ensures
        s.push(c).contains(wanted) == (s.contains(wanted) || c == wanted),
{
    let after = s.push(c);
    if s.contains(wanted) {
        let i = choose|i: int| 0 <= i < s.len() && s[i] == wanted;
        assert(after[i] == wanted);
    }
    if c == wanted {
        assert(after[s.len() as int] == wanted);
    }
    if after.contains(wanted) {
        let i = choose|i: int| 0 <= i < after.len() && after[i] == wanted;
        if i < s.len() {
            assert(s[i] == wanted);
        }
    }
}

/// The decimal digit of a number below ten.
pub open spec fn digit_of(n: nat) -> char {
    (48 + n) as char
}

/// A number in decimal.
pub open spec fn decimal_of(n: nat) -> Seq<char>
    decreases n,
{
    if n < 10 {
        seq![digit_of(n)]
    } else {
        decimal_of(n / 10).push(digit_of(n % 10))
    }
}

/// The decimal digit of a number below ten.
fn digit(n: u64) -> (r: char)
    requires
        n < 10,
    ensures
        r == digit_of(n as nat),
{
    match n {
        0 => '0',
        1 => '1',
        2 => '2',
        3 => '3',
        4 => '4',
        5 => '5',
        6 => '6',
        7 => '7',
        8 => '8',
        _ => '9',
    }
}

/// Appends a number in decimal.
pub fn append_decimal(out: &mut String, n: u64)
    ensures
        final(out)@ == old(out)@ + decimal_of(n as nat),
    decreases n,
{
    if n < 10 {
        out.push(digit(n));
        assert(out@ =~= old(out)@ + decimal_of(n as nat));
    } else {
        append_decimal(out, n / 10);
        out.push(digit(n % 10));
        assert(out@ =~= old(out)@ + decimal_of(n as nat));
    }
}

/// The upper-case hexadecimal digit of a number below sixteen.
pub open spec fn upper_hex_digit_of(n: int) -> char {
    if n < 10 {
        (48 + n) as char
    } else {
        (55 + n) as char
    }
}

/// A 32-bit number as eight upper-case hexadecimal digits.
pub open spec fn upper_hex32_of(n: u32) -> Seq<char> {
    Seq::new(8, |i: int| upper_hex_digit_of(n as int / pow16(7 - i) % 16))
}

/// Powers of sixteen.
pub open spec fn pow16(k: int) -> int
    decreases k,
{
    if k <= 0 {
        1
    } else {
        16 * pow16(k - 1)
    }
}

/// The upper-case hexadecimal digit of a number below sixteen.
fn upper_hex_digit(n: u32) -> (r: char)
    requires
        n < 16,
    ensures
        r == upper_hex_digit_of(n as int),
{
    match n {
        0 => '0',
        1 => '1',
        2 => '2',
        3 => '3',
        4 => '4',
        5 => '5',
        6 => '6',
        7 => '7',
        8 => '8',
        9 => '9',
        10 => 'A',
        11 => 'B',
        12 => 'C',
        13 => 'D',
        14 => 'E',
        _ => 'F',
    }
}

/// Appends a 32-bit number as eight upper-case hexadecimal digits.
pub fn append_upper_hex32(out: &mut String, n: u32)
    ensures
        final(out)@ == old(out)@ + upper_hex32_of(n),
{
    proof {
        reveal_with_fuel(pow16, 9);
    }
    out.push(upper_hex_digit(n / 0x1000_0000 % 16));
    out.push(upper_hex_digit(n / 0x100_0000 % 16));
    out.push(upper_hex_digit(n / 0x10_0000 % 16));
    out.push(upper_hex_digit(n / 0x1_0000 % 16));
    out.push(upper_hex_digit(n / 0x1000 % 16));
    out.push(upper_hex_digit(n / 0x100 % 16));
    out.push(upper_hex_digit(n / 0x10 % 16));
    out.push(upper_hex_digit(n % 16));
    assert(out@ =~= old(out)@ + upper_hex32_of(n));
}

/// Whether a text holds a character.
pub fn text_contains(s: &str, wanted: char) -> (r: bool)
    ensures
        r == s@.contains(wanted),
{
    let mut found: bool = false;
    for c in iter: s.chars()
        invariant
            found == iter.seq().take(iter.index()).contains(wanted),
    {
        proof {
            lemma_contains_push(iter.seq().take(iter.index()), c, wanted);
            assert(iter.seq().take(iter.index() + 1) =~= iter.seq().take(iter.index()).push(c));
        }
        if c == wanted {
            found = true;
        }
    }
    assert(s@.take(s@.len() as int) =~= s@);
    found
}

/// Copies a text.
pub fn copy_text(s: &str) -> (r: String)
    ensures
        r@ == s@,
{
    s.to_owned()
}

} // verus!
