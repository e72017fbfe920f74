//! How the contexts of a CREATE request read from their bytes.

use crate::bytes::le16;
use crate::bytes::le32;
use crate::bytes::u16_at;
use crate::bytes::u32_at;
use crate::bytes::u64_at;
use crate::bytes::zeros;
use crate::wire::body::buffer_of;
use crate::wire::context::pad8;
use crate::wire::create::create_context_bytes;
use crate::wire::create::create_context_data_offset;
use crate::wire::create::create_context_error;
use crate::wire::create::create_context_len;
use crate::wire::create::create_contexts_bytes;
use crate::wire::create::create_contexts_fit;
use crate::wire::create::create_contexts_of;
use crate::wire::create::create_response_contexts;
use crate::wire::create::durable_reconnect_view;
use crate::wire::create::durable_request_view;
use crate::wire::create::CreateContextView;
use crate::wire::file_io::FileId;
use vstd::prelude::*;

verus! {

/// How one context reads where it begins: the distance to the next one, then where its name and its
/// data stand. A context without data names no place for it.
pub open spec fn context_stands(b: Seq<u8>, c: CreateContextView, next: int) -> bool {
    let data_at = u16_at(b, 10) as int;
    &&& b.len() >= 16 + c.name.len()
    &&& u32_at(b, 0) == next
    &&& u16_at(b, 4) == 16
    &&& u16_at(b, 6) == c.name.len()
    &&& u16_at(b, 8) == 0
    &&& u32_at(b, 12) == c.data.len()
    &&& b.subrange(16, 16 + c.name.len() as int) == c.name
    &&& if c.data.len() == 0 {
        data_at == 0
    } else {
        &&& data_at % 8 == 0
        &&& 16 + c.name.len() <= data_at < 24 + c.name.len()
        &&& data_at + c.data.len() <= b.len()
        &&& b.subrange(data_at, data_at + c.data.len()) == c.data
    }
}

/// One context stands where its bytes stand.
#[verifier::spinoff_prover]
proof fn lemma_context_stands(c: CreateContextView, is_last: bool, rest: Seq<u8>)
    requires
        create_context_error(c.name, c.data) is None,
        create_context_len(c) + 8 <= u32::MAX || is_last,
    ensures
        ({
            let len = create_context_len(c);
            let b = create_context_bytes(c, is_last) + rest;
            let next = if is_last {
                0
            } else {
                len + pad8(len)
            };
            &&& context_stands(b, c, next)
            &&& create_context_bytes(c, is_last).len() == if is_last {
                len
            } else {
                next
            }
            &&& next % 8 == 0
        }),
{
    broadcast use crate::bytes::group_byte_layout;

    let len = create_context_len(c);
    let one = create_context_bytes(c, is_last);
    let b = one + rest;
    let at = create_context_data_offset(c);
    let n = c.name.len() as int;
    let padding = if is_last {
        0
    } else {
        pad8(len)
    };
    let next = if is_last {
        0
    } else {
        len + padding
    };
    let data_offset = if c.data.len() == 0 {
        0
    } else {
        at
    };
    let fixed = le32(next as u32) + le16(16) + le16(c.name.len() as u16) + le16(0) + le16(
        data_offset as u16,
    ) + le32(c.data.len() as u32);
    assert(fixed.len() == 16);
    assert(u32_at(fixed, 0) == next);
    assert(u16_at(fixed, 4) == 16);
    assert(u16_at(fixed, 6) == n);
    assert(u16_at(fixed, 8) == 0);
    assert(u16_at(fixed, 10) == data_offset);
    assert(u32_at(fixed, 12) == c.data.len());
    let tail = c.name + zeros(pad8(n)) + c.data + zeros(padding) + rest;
    assert(b =~= fixed + tail);
    assert(b.subrange(16, 16 + n) =~= c.name);
    if c.data.len() > 0 {
        assert(b.subrange(at, at + c.data.len()) =~= c.data);
    }
}

/// A context that stands alone is read as itself.
proof fn lemma_last_read(b: Seq<u8>, c: CreateContextView)
    requires
        context_stands(b, c, 0),
    ensures
        create_contexts_of(b) == Some(seq![c]),
{
    assert(b.take(b.len() as int) =~= b);
    assert(buffer_of(b, 16, c.name.len() as int) =~= c.name);
    if c.data.len() == 0 {
        assert(c.data =~= Seq::empty());
    }
}

/// A context that others follow is read as itself, and they as what follows it.
proof fn lemma_first_read(
    b: Seq<u8>,
    c: CreateContextView,
    next: int,
    rest: Seq<CreateContextView>,
)
    requires
        context_stands(b, c, next),
        0 < next <= b.len(),
        next % 8 == 0,
        16 + c.name.len() <= next,
        c.data.len() > 0 ==> u16_at(b, 10) + c.data.len() <= next,
        create_contexts_of(b.skip(next)) == Some(rest),
    ensures
        create_contexts_of(b) == Some(seq![c] + rest),
{
    assert(b.take(next).len() == next);
    assert(buffer_of(b, 16, c.name.len() as int) =~= c.name);
    if c.data.len() == 0 {
        assert(c.data =~= Seq::empty());
    }
}

/// Reading the contexts of a CREATE request back gives the contexts, in their order.
pub proof fn law_create_contexts_read_back(cs: Seq<CreateContextView>)
    requires
        cs.len() > 0,
        create_contexts_fit(cs),
        create_contexts_bytes(cs).len() <= u32::MAX,
    ensures
        create_contexts_of(create_contexts_bytes(cs)) == Some(cs),
    decreases cs.len(),
{
    let b = create_contexts_bytes(cs);
    let c = cs[0];
    let rest = create_contexts_bytes(cs.drop_first());
    assert(create_context_error(c.name, c.data) is None);
    if cs.len() == 1 {
        assert(cs.drop_first() =~= Seq::empty());
        lemma_context_stands(c, true, rest);
        assert(cs =~= seq![c]);
        lemma_last_read(b, c);
    } else {
        let more = cs.drop_first();
        assert forall|i: int| 0 <= i < more.len() implies create_context_error(
            (#[trigger] more[i]).name,
            more[i].data,
        ) is None by {
            assert(create_context_error(cs[i + 1].name, cs[i + 1].data) is None);
        }
        lemma_contexts_len(more);
        lemma_one_len(c);
        lemma_context_stands(c, false, rest);
        let next = create_context_len(c) + pad8(create_context_len(c));
        assert(b.skip(next) =~= rest);
        law_create_contexts_read_back(more);
        assert(cs =~= seq![c] + more);
        if c.data.len() > 0 {
            lemma_data_place(c, b);
        }
        lemma_first_read(b, c, next, more);
    }
}

/// The data of a context begin where its offset says.
proof fn lemma_data_place(c: CreateContextView, b: Seq<u8>)
    requires
        context_stands(b, c, create_context_len(c) + pad8(create_context_len(c))),
        c.data.len() > 0,
    ensures
        u16_at(b, 10) == create_context_data_offset(c),
{
}

/// The length of one context that another follows.
proof fn lemma_one_len(c: CreateContextView)
    ensures
        create_context_bytes(c, false).len() == create_context_len(c) + pad8(
            create_context_len(c),
        ),
{
    broadcast use crate::bytes::group_int_len;

}

/// Contexts are never shorter than the fixed part of one.
proof fn lemma_contexts_len(cs: Seq<CreateContextView>)
    requires
        cs.len() > 0,
    ensures
        create_contexts_bytes(cs).len() >= 16,
{
    broadcast use crate::bytes::group_int_len;

}

/// The context that asks for a durable handle is named `DH2Q`. Its data are the timeout, the flags,
/// eight zeros and the GUID, in this order.
pub proof fn law_durable_request_context(timeout_ms: u32, flags: u32, guid: Seq<u8>)
    requires
        guid.len() == 16,
    ensures
        ({
            let c = durable_request_view(timeout_ms, flags, guid);
            &&& c.name == seq![0x44u8, 0x48u8, 0x32u8, 0x51u8]
            &&& c.data.len() == 32
            &&& u32_at(c.data, 0) == timeout_ms
            &&& u32_at(c.data, 4) == flags
            &&& forall|i: int| 8 <= i < 16 ==> #[trigger] c.data[i] == 0
            &&& c.data.subrange(16, 32) == guid
        }),
{
    broadcast use crate::bytes::group_byte_layout;

    let c = durable_request_view(timeout_ms, flags, guid);
    assert(c.data.subrange(16, 32) =~= guid);
}

/// The context that takes a durable handle up again is named `DH2C`. Its data are the two halves of
/// the file identifier, the GUID and the flags, in this order.
pub proof fn law_durable_reconnect_context(file_id: FileId, guid: Seq<u8>, flags: u32)
    requires
        guid.len() == 16,
    ensures
        ({
            let c = durable_reconnect_view(file_id, guid, flags);
            &&& c.name == seq![0x44u8, 0x48u8, 0x32u8, 0x43u8]
            &&& c.data.len() == 36
            &&& u64_at(c.data, 0) == file_id.persistent
            &&& u64_at(c.data, 8) == file_id.volatile
            &&& c.data.subrange(16, 32) == guid
            &&& u32_at(c.data, 32) == flags
        }),
{
    broadcast use crate::bytes::group_byte_layout;

    let c = durable_reconnect_view(file_id, guid, flags);
    assert(u64_at(c.data, 0) == u64_at(file_id.bytes(), 0));
    assert(u64_at(c.data, 8) == u64_at(file_id.bytes(), 8));
    assert(c.data.subrange(16, 32) =~= guid);
}

/// Where a length of bytes lies: nothing lies anywhere, and anything else behind a beginning and before
/// an end.
pub open spec fn lies(at: int, n: int, from: int, to: int) -> bool {
    n == 0 || (from <= at && at + n <= to)
}

/// Whether bytes are those of a place.
pub open spec fn taken(bytes: Seq<u8>, b: Seq<u8>, at: int, n: int) -> bool {
    bytes.len() == n && (n > 0 ==> bytes == b.subrange(at, at + n))
}

/// Contexts are read one by one. The first stands at the beginning: the distance to the next one at 0, its
/// name where the fields at 4 and 6 say and its data where those at 10 and 12 say, behind its head
/// and before the next one. The others stand behind that distance, a multiple of eight; a distance of
/// zero ends them. What is not so is refused.
pub proof fn law_create_contexts_are_read_one_by_one(b: Seq<u8>)
    ensures
        ({
            let next = u32_at(b, 0) as int;
            let end = if next == 0 {
                b.len() as int
            } else {
                next
            };
            let rest = create_contexts_of(b.skip(next));
            &&& create_contexts_of(b) is Some <==> {
                &&& b.len() >= 16
                &&& next != 0 ==> next % 8 == 0 && 16 <= next <= b.len()
                &&& lies(u16_at(b, 4) as int, u16_at(b, 6) as int, 16, end)
                &&& lies(u16_at(b, 10) as int, u32_at(b, 12) as int, 16, end)
                &&& next != 0 ==> rest is Some
            }
            &&& create_contexts_of(b) is Some ==> {
                let contexts = create_contexts_of(b)->0;
                &&& contexts.len() > 0
                &&& taken(contexts[0].name, b, u16_at(b, 4) as int, u16_at(b, 6) as int)
                &&& taken(contexts[0].data, b, u16_at(b, 10) as int, u32_at(b, 12) as int)
                &&& contexts.drop_first() == if next == 0 {
                    Seq::empty()
                } else {
                    rest->0
                }
            }
        }),
{
    let next = u32_at(b, 0) as int;
    if create_contexts_of(b) is Some {
        let contexts = create_contexts_of(b)->0;
        if next == 0 {
            assert(contexts.drop_first() =~= Seq::empty());
        } else {
            assert(contexts.drop_first() =~= create_contexts_of(b.skip(next))->0);
        }
    }
}

/// The contexts of a CREATE response stand where the field at 144 says, behind the fixed part, in as many
/// bytes as the field at 148 says. There are none in no bytes.
pub proof fn law_create_response_contexts(m: Seq<u8>)
    ensures
        ({
            let at = u32_at(m, 144) as int;
            let n = u32_at(m, 148) as int;
            create_response_contexts(m) == if n == 0 {
                Some(Seq::empty())
            } else if at < 152 || at + n > m.len() {
                None
            } else {
                create_contexts_of(m.subrange(at, at + n))
            }
        }),
{
}

} // verus!
