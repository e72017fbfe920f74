//! What errors and reports say.

use crate::client::error::ClientError;
use crate::client::reconnect::ReconnectError;
use crate::fs::query::FsQueryError;
use crate::laws::answers::dialect_numbered;
use crate::laws::encodings::hex_value;
use crate::probe::dialect_text;
use crate::probe::nibble_of;
use crate::stream::broker::BrokerError;
use crate::stream::video::StreamError;
use crate::text::pow16;
use crate::text::upper_hex32_of;
use crate::wire::negotiate::Dialect;
use vstd::prelude::*;

verus! {

/// Digits in front of the last one stand for the number without its last digit.
proof fn lemma_last_digit(digits: Seq<char>, n: int)
    requires
        digits.len() > 0,
        nibble_of(digits.last() as u8) == Some((n % 16) as u8),
        hex_value(digits.drop_last()) == n / 16,
    ensures
        hex_value(digits) == n,
{
}

/// A status in upper-case hexadecimal has eight digits and stands for the status.
pub proof fn law_upper_hex(status: u32)
    ensures
        upper_hex32_of(status).len() == 8,
        hex_value(upper_hex32_of(status)) == status,
        forall|i: int|
            0 <= i < 8 ==> {
                ||| '0' <= #[trigger] upper_hex32_of(status)[i] <= '9'
                ||| 'A' <= upper_hex32_of(status)[i] <= 'F'
            },
{
    let digits = upper_hex32_of(status);
    let n = status as int;
    reveal_with_fuel(pow16, 9);
    reveal_with_fuel(hex_value, 2);
    assert(pow16(0) == 1 && pow16(1) == 16 && pow16(2) == 256 && pow16(3) == 4096 && pow16(4)
        == 65_536 && pow16(5) == 1_048_576 && pow16(6) == 16_777_216 && pow16(7) == 268_435_456);
    let d1 = digits.take(1);
    let d2 = digits.take(2);
    let d3 = digits.take(3);
    let d4 = digits.take(4);
    let d5 = digits.take(5);
    let d6 = digits.take(6);
    let d7 = digits.take(7);
    assert(d1.drop_last() =~= Seq::empty());
    assert(d2.drop_last() =~= d1);
    assert(d3.drop_last() =~= d2);
    assert(d4.drop_last() =~= d3);
    assert(d5.drop_last() =~= d4);
    assert(d6.drop_last() =~= d5);
    assert(d7.drop_last() =~= d6);
    assert(digits.drop_last() =~= d7);
    lemma_last_digit(d1, n / 268_435_456);
    lemma_last_digit(d2, n / 16_777_216);
    lemma_last_digit(d3, n / 1_048_576);
    lemma_last_digit(d4, n / 65_536);
    lemma_last_digit(d5, n / 4096);
    lemma_last_digit(d6, n / 256);
    lemma_last_digit(d7, n / 16);
    lemma_last_digit(digits, n);
}

/// What is said of a status ends with the eight digits that stand for it, so that two statuses are never
/// described alike.
pub proof fn law_status_is_named(status: u32, text: Seq<char>)
    requires
        ClientError::ServerStatus(status).has_message(text),
    ensures
        text.len() >= 10,
        text[text.len() - 10] == '0',
        text[text.len() - 9] == 'x',
        hex_value(text.skip(text.len() - 8)) == status,
{
    law_upper_hex(status);
    reveal_strlit("SMB server returned NTSTATUS 0x");
    assert(text.skip(text.len() - 8) =~= upper_hex32_of(status));
}

/// Whether a text ends with another.
pub open spec fn ends_with(text: Seq<char>, end: Seq<char>) -> bool {
    text.len() >= end.len() && text.skip(text.len() - end.len()) == end
}

/// What is said of a failure ends with what was wrong.
pub proof fn law_causes_are_named(m: &'static str, text: Seq<char>)
    ensures
        ClientError::Protocol(m).has_message(text) ==> ends_with(text, m@),
        ClientError::Capability(m).has_message(text) ==> ends_with(text, m@),
        ClientError::Timeout(m).has_message(text) ==> ends_with(text, m@),
        StreamError::InvalidConfig(m).has_message(text) ==> ends_with(text, m@),
        BrokerError::InvalidConfig(m).has_message(text) ==> ends_with(text, m@),
        FsQueryError::InvalidData(m).has_message(text) ==> ends_with(text, m@),
{
    if text.len() >= m@.len() {
        let end = text.skip(text.len() - m@.len());
        assert(ClientError::Protocol(m).has_message(text) ==> end =~= m@);
        assert(ClientError::Capability(m).has_message(text) ==> end =~= m@);
        assert(ClientError::Timeout(m).has_message(text) ==> end =~= m@);
        assert(StreamError::InvalidConfig(m).has_message(text) ==> end =~= m@);
        assert(BrokerError::InvalidConfig(m).has_message(text) ==> end =~= m@);
        assert(FsQueryError::InvalidData(m).has_message(text) ==> end =~= m@);
    }
}

/// What is said of a failure that another one caused holds, behind a beginning of its own, all that is said
/// of the other.
pub proof fn law_inner_failures_are_described(
    client: ClientError,
    reconnect: ReconnectError,
    stream: StreamError,
    text: Seq<char>,
)
    ensures
        ReconnectError::Client(client).has_message(text) ==> exists|k: int|
            0 < k <= text.len() && client.has_message(#[trigger] text.skip(k)),
        StreamError::Client(client).has_message(text) ==> exists|k: int|
            0 < k <= text.len() && client.has_message(#[trigger] text.skip(k)),
        StreamError::Reconnect(reconnect).has_message(text) ==> exists|k: int|
            0 < k <= text.len() && reconnect.has_message(#[trigger] text.skip(k)),
        BrokerError::Stream(stream).has_message(text) ==> exists|k: int|
            0 < k <= text.len() && stream.has_message(#[trigger] text.skip(k)),
        FsQueryError::Client(client).has_message(text) ==> exists|k: int|
            0 < k <= text.len() && client.has_message(#[trigger] text.skip(k)),
{
    reveal_strlit("SMB reconnect client error: ");
    reveal_strlit("SMB client error: ");
    reveal_strlit("SMB reconnect error: ");
    reveal_strlit("stream error: ");
    reveal_strlit("SMB query failed: ");
}

/// A dialect is named by the digits of its revision number: the first three of them, of which the last is
/// left out where it is zero, with dots between.
pub proof fn law_dialect_is_named(dialect: Dialect, number: u16)
    requires
        dialect_numbered(dialect, number),
    ensures
        ({
            let name = dialect_text(dialect)@;
            let last = number % 16;
            &&& name.len() == if last == 0 {
                7int
            } else {
                9
            }
            &&& name.take(4) == "SMB "@
            &&& name[4] as int == '0' as int + number / 256
            &&& name[5] == '.'
            &&& name[6] as int == '0' as int + number / 16 % 16
            &&& last != 0 ==> name[7] == '.' && name[8] as int == '0' as int + last
        }),
{
    reveal_strlit("SMB ");
    reveal_strlit("SMB 2.0.2");
    reveal_strlit("SMB 2.1");
    reveal_strlit("SMB 3.0");
    reveal_strlit("SMB 3.0.2");
    reveal_strlit("SMB 3.1.1");
    assert(dialect_text(dialect)@.take(4) =~= "SMB "@);
}

} // verus!
