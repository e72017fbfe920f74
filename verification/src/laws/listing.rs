//! What the queries of the file system ask for, and what becomes of the answers.

use crate::bytes::u32_at;
use crate::bytes::u64_at;
use crate::client::file::FileHandle;
use crate::client::query::query_output_of;
use crate::client::query::PendingQuery;
use crate::client::query::QueryDirectoryOptions;
use crate::client::query::QueryInfoOptions;
use crate::client::query::QueryKind;
use crate::client::session::SessionConnection;
use crate::fs::query::asks_names;
use crate::fs::query::asks_standard_information;
use crate::fs::query::entry_views;
use crate::fs::query::id_full_layout;
use crate::fs::query::info_query_begun;
use crate::fs::query::listing_continued;
use crate::fs::query::names_asked;
use crate::fs::query::names_layout;
use crate::fs::query::names_query_begun;
use crate::fs::query::query_answered;
use crate::fs::query::standard_information_of;
use crate::fs::query::DirectoryListing;
use crate::fs::query::FsQueryError;
use crate::fs::query::ListingStep;
use crate::fs::query::NameEntryView;
use crate::laws::messages::law_query_directory_message;
use crate::laws::messages::law_query_info_message;
use crate::laws::messages::query_directory_sent;
use crate::laws::messages::query_info_sent;
use crate::text::utf16le_text_of;
use vstd::prelude::*;

verus! {

/// A request of a listing holds, read back from its bytes, just the pattern as its search pattern. It
/// asks for FileIdFullDirectoryInformation, class 38, with no flags, from index 0 on, and for at
/// most 65535 bytes. What it waits for is the answer to this request on this tree.
pub proof fn law_listing_request<T>(
    r: Result<(DirectoryListing, Vec<u8>), FsQueryError>,
    session: SessionConnection<T>,
    after: SessionConnection<T>,
    directory: FileHandle,
    pattern: Seq<char>,
    entries: Seq<NameEntryView>,
)
    requires
        names_asked(r, session, after, directory, pattern, entries),
        r is Ok,
    ensures
        query_directory_sent(
            r->Ok_0.1@,
            session,
            directory.file_id,
            directory.tree_id,
            38,
            0,
            0,
            65_535,
            pattern,
            16,
        ),
        r->Ok_0.0.pending == (PendingQuery {
            kind: QueryKind::Directory,
            message_id: u64_at(r->Ok_0.1@, 24),
            tree_id: directory.tree_id,
            output_buffer_length: 65_535,
        }),
        entry_views(r->Ok_0.0.entries@) == entries,
{
    let options = choose|options: QueryDirectoryOptions| #[trigger]
        asks_names(options, pattern) && names_query_begun(
            r,
            session,
            after,
            directory,
            options,
            entries,
        );
    law_query_directory_message(session, directory.file_id, directory.tree_id, options);
}

/// The requests that follow the first one in a listing hold an empty search pattern, go to the same
/// directory, and carry on the entries so far followed by those of the response. A response without
/// entries ends the listing with the entries so far, and nothing more goes out.
pub proof fn law_listing_continues<T>(
    r: Result<ListingStep, FsQueryError>,
    session: SessionConnection<T>,
    after: SessionConnection<T>,
    directory: FileHandle,
    entries: Seq<NameEntryView>,
    pending: PendingQuery,
    m: Seq<u8>,
)
    requires
        listing_continued(r, session, after, directory, entries, pending, m),
        r is Ok,
    ensures
        query_output_of(session, pending, m) is Ok,
        ({
            let output = query_output_of(session, pending, m)->Ok_0;
            match r->Ok_0 {
                ListingStep::Send(listing, message) => {
                    let more = id_full_layout().listing_of(output);
                    &&& output.len() > 0
                    &&& more is Ok
                    &&& entry_views(listing.entries@) == entries + more->Ok_0
                    &&& query_directory_sent(
                        message@,
                        query_answered(session, pending, m),
                        directory.file_id,
                        directory.tree_id,
                        38,
                        0,
                        0,
                        65_535,
                        Seq::empty(),
                        16,
                    )
                    &&& listing.pending.message_id == u64_at(message@, 24)
                    &&& listing.pending.tree_id == directory.tree_id
                },
                ListingStep::Done(all) => output.len() == 0 && entry_views(all@) == entries,
            }
        }),
{
    let output = query_output_of(session, pending, m)->Ok_0;
    if output.len() > 0 {
        let more = id_full_layout().listing_of(output)->Ok_0;
        let sent: Result<(DirectoryListing, Vec<u8>), FsQueryError> = match r {
            Ok(step) => Ok((step->Send_0, step->Send_1)),
            Err(e) => Err(e),
        };
        law_listing_request(
            sent,
            query_answered(session, pending, m),
            after,
            directory,
            Seq::empty(),
            entries + more,
        );
    }
}

/// The request for the standard information of a file asks, read back from its bytes, for a file's
/// information, type 1, of class 5, in 24 bytes, with nothing else set and no input.
pub proof fn law_standard_information_request<T>(
    r: Result<(Vec<u8>, PendingQuery), FsQueryError>,
    session: SessionConnection<T>,
    after: SessionConnection<T>,
    file: FileHandle,
    options: QueryInfoOptions,
)
    requires
        asks_standard_information(options),
        info_query_begun(r, session, after, file, options),
        r is Ok,
    ensures
        query_info_sent(r->Ok_0.0@, session, file.file_id, file.tree_id, options),
        r->Ok_0.0@[66] == 1,
        r->Ok_0.0@[67] == 5,
        u32_at(r->Ok_0.0@, 68) == 24,
        u32_at(r->Ok_0.0@, 76) == 0,
        u32_at(r->Ok_0.0@, 80) == 0,
        u32_at(r->Ok_0.0@, 84) == 0,
        r->Ok_0.0@.len() == 104,
        r->Ok_0.1 == (PendingQuery {
            kind: QueryKind::Info,
            message_id: u64_at(r->Ok_0.0@, 24),
            tree_id: file.tree_id,
            output_buffer_length: 24,
        }),
{
    law_query_info_message(session, file.file_id, file.tree_id, options);
}

/// The standard information of a file is read at its own places, and refused if and only if it is
/// shorter than 24 bytes or one of its two sizes is negative.
pub proof fn law_standard_information(b: Seq<u8>)
    ensures
        standard_information_of(b) is Ok <==> b.len() >= 24 && u64_at(b, 0)
            <= 0x7FFF_FFFF_FFFF_FFFF && u64_at(b, 8) <= 0x7FFF_FFFF_FFFF_FFFF,
        standard_information_of(b) is Ok ==> {
            let said = standard_information_of(b)->Ok_0;
            &&& said.allocation_size == u64_at(b, 0)
            &&& said.end_of_file == u64_at(b, 8)
            &&& said.number_of_links == u32_at(b, 16)
            &&& said.delete_pending == (b[20] != 0)
            &&& said.directory == (b[21] != 0)
        },
{
}

/// Whether bytes begin with an entry of a listing whose name stands behind so many bytes and whose
/// length stands at some place: the index at 4, the name in UTF-16 behind the fixed part.
pub open spec fn entry_stands(
    b: Seq<u8>,
    length_at: int,
    fixed: int,
    index: u32,
    name: Seq<char>,
) -> bool {
    &&& b.len() >= fixed + u32_at(b, length_at)
    &&& u32_at(b, 4) == index
    &&& utf16le_text_of(b.subrange(fixed, fixed + u32_at(b, length_at))) == Some(name)
}

/// The first entry of a listing is what its bytes begin with, the rest is what stands where its first
/// field points, which is a multiple of eight behind the name. FileIdFullDirectoryInformation has its
/// name length at 60 and its name at 80, FileNamesInformation at 8 and 12.
pub proof fn law_listing_is_read_entry_by_entry(b: Seq<u8>, full: bool)
    requires
        b.len() > 0,
        (if full {
            id_full_layout()
        } else {
            names_layout()
        }).listing_of(b) is Ok,
    ensures
        ({
            let layout = if full {
                id_full_layout()
            } else {
                names_layout()
            };
            let entries = layout.listing_of(b)->Ok_0;
            let next = u32_at(b, 0) as int;
            let length_at: int = if full {
                60
            } else {
                8
            };
            let fixed: int = if full {
                80
            } else {
                12
            };
            &&& entries.len() > 0
            &&& entry_stands(b, length_at, fixed, entries[0].file_index, entries[0].name)
            &&& next == 0 ==> entries.len() == 1
            &&& next != 0 ==> {
                &&& next % 8 == 0
                &&& fixed + u32_at(b, length_at) <= next <= b.len()
                &&& layout.listing_of(b.skip(next)) == Ok::<_, FsQueryError>(entries.skip(1))
            }
        }),
{
    let layout = if full {
        id_full_layout()
    } else {
        names_layout()
    };
    let entries = layout.listing_of(b)->Ok_0;
    let next = u32_at(b, 0) as int;
    assert(layout.wf());
    assert(layout.entry_error(b) is None);
    if next == 0 {
        assert(entries =~= seq![layout.entry_of(b)]);
    } else {
        let rest = layout.listing_of(b.skip(next))->Ok_0;
        assert(entries =~= seq![layout.entry_of(b)] + rest);
        assert(entries.skip(1) =~= rest);
    }
}

} // verus!
