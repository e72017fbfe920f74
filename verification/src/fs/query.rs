//! Queries about files and directories.

use crate::bytes::get_u32;
use crate::bytes::get_u64;
use crate::bytes::law_u32_roundtrip;
use crate::bytes::le32;
use crate::bytes::u32_at;
use crate::bytes::u64_at;
use crate::bytes::zeros;
use crate::client::error::ClientError;
use crate::client::file::FileHandle;
use crate::client::query::PendingQuery;
use crate::client::query::query_answer_error;
use crate::client::query::query_directory_begin_error;
use crate::client::query::query_directory_charge;
use crate::client::query::query_directory_plain;
use crate::client::query::query_directory_refusal;
use crate::client::query::query_info_begin_error;
use crate::client::query::query_info_charge;
use crate::client::query::query_info_plain;
use crate::client::query::query_info_refusal;
use crate::client::query::query_output_of;
use crate::client::query::QueryDirectoryOptions;
use crate::client::query::QueryInfoOptions;
use crate::client::query::QueryKind;
use crate::client::session::SessionConnection;
use crate::laws::messages::query_directory_sent;
use crate::laws::listing::law_listing_request;
use crate::text::append_text;
use crate::text::copy_text;
use crate::text::law_utf16le_roundtrip;
use crate::text::text_begins_with;
use crate::text::text_from_utf16le;
use crate::text::utf16le_of;
use crate::text::utf16le_text_of;
use crate::wire::constants::INFO_TYPE_FILE;
use crate::wire::constants::QUERY_DIRECTORY_FLAG_NONE;
use crate::wire::constants::QUERY_INFO_FLAG_NONE;
use crate::wire::context::pad8;
use crate::wire::header::header_of;
use vstd::prelude::*;

verus! {

pub const FILE_STANDARD_INFORMATION_CLASS: u8 = 0x05;

pub const FILE_ID_FULL_DIRECTORY_INFORMATION_CLASS: u8 = 0x26;

pub const STANDARD_INFORMATION_SIZE: usize = 24;

pub const FILE_NAMES_INFORMATION_FIXED_SIZE: usize = 12;

pub const FILE_ID_FULL_DIRECTORY_INFORMATION_FIXED_SIZE: usize = 80;

pub const FILE_ID_FULL_DIRECTORY_INFORMATION_NAME_LENGTH_OFFSET: usize = 60;

pub const DEFAULT_QUERY_BUFFER_SIZE: u32 = 65_535;

/// Why a filesystem query failed.
#[derive(Debug)]
pub enum FsQueryError {
    Client(ClientError),
    InvalidData(&'static str),
    InvalidUtf16,
}

impl From<ClientError> for FsQueryError {
    fn from(value: ClientError) -> (r: Self) {
        FsQueryError::Client(value)
    }
}

impl vstd::std_specs::convert::FromSpecImpl<ClientError> for FsQueryError {
    open spec fn obeys_from_spec() -> bool {
        true
    }

    open spec fn from_spec(value: ClientError) -> Self {
        FsQueryError::Client(value)
    }
}

impl FsQueryError {
    /// The text that describes an error. What an I/O error says of itself is left open.
    pub open spec fn has_message(self, text: Seq<char>) -> bool {
        match self {
            FsQueryError::Client(e) => {
                &&& text_begins_with(text, "SMB query failed: "@)
                &&& e.has_message(text.skip("SMB query failed: "@.len() as int))
            },
            FsQueryError::InvalidData(field) => text == "invalid SMB filesystem query data: "@
                + field@,
            FsQueryError::InvalidUtf16 => text
                == "invalid UTF-16 file name in SMB directory response"@,
        }
    }

    /// Describes the error.
    pub fn to_text(&self) -> (r: String)
        ensures
            self.has_message(r@),
    {
        match self {
            FsQueryError::Client(error) => {
                let mut out = copy_text("SMB query failed: ");
                let detail = error.to_text();
                append_text(&mut out, detail.as_str());
                proof {
                    let n = "SMB query failed: "@.len() as int;
                    assert(out@.take(n) =~= "SMB query failed: "@);
                    assert(out@.skip(n) =~= detail@);
                }
                out
            },
            FsQueryError::InvalidData(field) => {
                let mut out = copy_text("invalid SMB filesystem query data: ");
                append_text(&mut out, field);
                out
            },
            FsQueryError::InvalidUtf16 => copy_text(
                "invalid UTF-16 file name in SMB directory response",
            ),
        }
    }
}

/// What a server says of every file.
#[derive(Clone, Copy, Debug, PartialEq, Eq, Structural)]
pub struct FileStandardInformation {
    pub allocation_size: u64,
    pub end_of_file: u64,
    pub number_of_links: u32,
    pub delete_pending: bool,
    pub directory: bool,
}

/// What the bytes of a FileStandardInformation say. A size is a signed number that is not negative.
pub open spec fn standard_information_of(b: Seq<u8>) -> Result<
    FileStandardInformation,
    FsQueryError,
> {
    if b.len() < STANDARD_INFORMATION_SIZE {
        Err(FsQueryError::InvalidData("FileStandardInformation is shorter than 24 bytes"))
    } else if u64_at(b, 0) > i64::MAX {
        Err(FsQueryError::InvalidData("FileStandardInformation AllocationSize is negative"))
    } else if u64_at(b, 8) > i64::MAX {
        Err(FsQueryError::InvalidData("FileStandardInformation EndOfFile is negative"))
    } else {
        Ok(
            FileStandardInformation {
                allocation_size: u64_at(b, 0),
                end_of_file: u64_at(b, 8),
                number_of_links: u32_at(b, 16),
                delete_pending: b[20] != 0,
                directory: b[21] != 0,
            },
        )
    }
}

impl FileStandardInformation {
    /// Reads a FileStandardInformation.
    pub fn decode(buffer: &[u8]) -> (r: Result<Self, FsQueryError>)
        ensures
            r == standard_information_of(buffer@),
    {
        if buffer.len() < STANDARD_INFORMATION_SIZE {
            return Err(
                FsQueryError::InvalidData("FileStandardInformation is shorter than 24 bytes"),
            );
        }
        let allocation_size: u64 = get_u64(buffer, 0);
        let end_of_file: u64 = get_u64(buffer, 8);
        if allocation_size > 0x7FFF_FFFF_FFFF_FFFF {
            return Err(
                FsQueryError::InvalidData("FileStandardInformation AllocationSize is negative"),
            );
        }
        if end_of_file > 0x7FFF_FFFF_FFFF_FFFF {
            return Err(FsQueryError::InvalidData("FileStandardInformation EndOfFile is negative"));
        }
        Ok(
            FileStandardInformation {
                allocation_size,
                end_of_file,
                number_of_links: get_u32(buffer, 16),
                delete_pending: buffer[20] != 0,
                directory: buffer[21] != 0,
            },
        )
    }
}

/// An entry of a directory.
#[derive(Clone, Debug, PartialEq, Eq)]
pub struct DirectoryNameEntry {
    pub file_index: u32,
    pub name: String,
}

/// What an entry of a directory is.
pub struct NameEntryView {
    pub file_index: u32,
    pub name: Seq<char>,
}

impl View for DirectoryNameEntry {
    type V = NameEntryView;

    open spec fn view(&self) -> NameEntryView {
        NameEntryView { file_index: self.file_index, name: self.name@ }
    }
}

/// What entries are.
pub open spec fn entry_views(entries: Seq<DirectoryNameEntry>) -> Seq<NameEntryView> {
    entries.map_values(|entry: DirectoryNameEntry| entry@)
}

/// How the entries of a listing are laid out, and what is said of a broken one.
#[derive(Clone, Copy)]
pub struct EntryLayout {
    pub fixed_size: usize,
    pub name_length_offset: usize,
    pub too_short: &'static str,
    pub name_unaligned: &'static str,
    pub name_overflow: &'static str,
    pub name_outside: &'static str,
    pub next_invalid: &'static str,
}

/// The layout of FileNamesInformation.
pub open spec fn names_layout() -> EntryLayout {
    EntryLayout {
        fixed_size: FILE_NAMES_INFORMATION_FIXED_SIZE,
        name_length_offset: 8,
        too_short: "FileNamesInformation entry is shorter than 12 bytes",
        name_unaligned: "FileNamesInformation FileNameLength is not UTF-16 aligned",
        name_overflow: "FileNamesInformation FileNameLength overflow",
        name_outside: "FileNamesInformation file name exceeds response buffer",
        next_invalid: "FileNamesInformation NextEntryOffset is invalid",
    }
}

/// The layout of FileIdFullDirectoryInformation.
pub open spec fn id_full_layout() -> EntryLayout {
    EntryLayout {
        fixed_size: FILE_ID_FULL_DIRECTORY_INFORMATION_FIXED_SIZE,
        name_length_offset: FILE_ID_FULL_DIRECTORY_INFORMATION_NAME_LENGTH_OFFSET,
        too_short: "FileIdFullDirectoryInformation entry is shorter than 80 bytes",
        name_unaligned: "FileIdFullDirectoryInformation FileNameLength is not UTF-16 aligned",
        name_overflow: "FileIdFullDirectoryInformation FileNameLength overflow",
        name_outside: "FileIdFullDirectoryInformation file name exceeds response buffer",
        next_invalid: "FileIdFullDirectoryInformation NextEntryOffset is invalid",
    }
}

impl EntryLayout {
    /// Whether an entry has room for what is read of it.
    pub open spec fn wf(self) -> bool {
        8 <= self.name_length_offset && self.name_length_offset + 4 <= self.fixed_size
            && self.fixed_size <= 80
    }

    /// Why the bytes do not begin with an entry, if they do not.
    pub open spec fn entry_error(self, b: Seq<u8>) -> Option<FsQueryError> {
        let name_length = u32_at(b, self.name_length_offset as int);
        if b.len() < self.fixed_size {
            Some(FsQueryError::InvalidData(self.too_short))
        } else if name_length % 2 != 0 {
            Some(FsQueryError::InvalidData(self.name_unaligned))
        } else if self.fixed_size + name_length > usize::MAX {
            Some(FsQueryError::InvalidData(self.name_overflow))
        } else if self.fixed_size + name_length > b.len() {
            Some(FsQueryError::InvalidData(self.name_outside))
        } else if utf16le_text_of(self.name_bytes(b)) is None {
            Some(FsQueryError::InvalidUtf16)
        } else {
            None
        }
    }

    /// The bytes of the name of the entry that the bytes begin with.
    pub open spec fn name_bytes(self, b: Seq<u8>) -> Seq<u8> {
        b.subrange(
            self.fixed_size as int,
            self.fixed_size + u32_at(b, self.name_length_offset as int),
        )
    }

    /// The entry that the bytes begin with.
    pub open spec fn entry_of(self, b: Seq<u8>) -> NameEntryView {
        NameEntryView {
            file_index: u32_at(b, 4),
            name: utf16le_text_of(self.name_bytes(b))->0,
        }
    }

    /// Whether the next entry stands behind the first one, inside the bytes and where it may.
    pub open spec fn next_fits(self, b: Seq<u8>) -> bool {
        let next = u32_at(b, 0);
        &&& self.fixed_size + u32_at(b, self.name_length_offset as int) <= next
        &&& next <= b.len()
        &&& next % 8 == 0
    }

    /// The entries that the bytes hold, one behind the other.
    pub open spec fn listing_of(self, b: Seq<u8>) -> Result<Seq<NameEntryView>, FsQueryError>
        decreases b.len(),
        when self.wf()
    {
        let next = u32_at(b, 0);
        if b.len() == 0 {
            Ok(Seq::empty())
        } else if self.entry_error(b) is Some {
            Err(self.entry_error(b)->0)
        } else if next == 0 {
            Ok(seq![self.entry_of(b)])
        } else if !self.next_fits(b) {
            Err(FsQueryError::InvalidData(self.next_invalid))
        } else {
            match self.listing_of(b.skip(next as int)) {
                Err(e) => Err(e),
                Ok(rest) => Ok(seq![self.entry_of(b)] + rest),
            }
        }
    }

    /// Reads the entry that the bytes begin with.
    fn decode_entry(&self, remaining: &[u8]) -> (r: Result<DirectoryNameEntry, FsQueryError>)
        requires
            self.wf(),
        ensures
            match self.entry_error(remaining@) {
                Some(e) => r == Err::<DirectoryNameEntry, FsQueryError>(e),
                None => r is Ok && r->Ok_0@ == self.entry_of(remaining@),
            },
    {
        if remaining.len() < self.fixed_size {
            return Err(FsQueryError::InvalidData(self.too_short));
        }
        let file_index: u32 = get_u32(remaining, 4);
        let name_length: u32 = get_u32(remaining, self.name_length_offset);
        if name_length % 2 != 0 {
            return Err(FsQueryError::InvalidData(self.name_unaligned));
        }
        let name_end: usize = match self.fixed_size.checked_add(name_length as usize) {
            Some(end) => end,
            None => {
                return Err(FsQueryError::InvalidData(self.name_overflow));
            },
        };
        if name_end > remaining.len() {
            return Err(FsQueryError::InvalidData(self.name_outside));
        }
        match text_from_utf16le(&remaining[self.fixed_size..name_end]) {
            Some(name) => Ok(DirectoryNameEntry { file_index, name }),
            None => Err(FsQueryError::InvalidUtf16),
        }
    }

    /// Reads entries one behind the other.
    fn decode_listing(&self, buffer: &[u8]) -> (r: Result<Vec<DirectoryNameEntry>, FsQueryError>)
        requires
            self.wf(),
        ensures
            match self.listing_of(buffer@) {
                Err(e) => r == Err::<Vec<DirectoryNameEntry>, FsQueryError>(e),
                Ok(entries) => r is Ok && entry_views(r->Ok_0@) == entries,
            },
    {
        let mut entries: Vec<DirectoryNameEntry> = Vec::new();
        let mut offset: usize = 0;
        let end: usize = buffer.len();
        proof {
            assert(buffer@.skip(0) =~= buffer@);
            lemma_extended_by_none(*self, buffer@);
            assert(entry_views(entries@) =~= Seq::empty());
        }
        while offset < end
            invariant
                self.wf(),
                end == buffer@.len(),
                offset <= end,
                self.listing_of(buffer@) == extended(
                    entry_views(entries@),
                    self.listing_of(buffer@.skip(offset as int)),
                ),
            decreases end - offset,
        {
            let remaining = &buffer[offset..end];
            assert(remaining@ =~= buffer@.skip(offset as int));
            let entry = self.decode_entry(remaining)?;
            let next: u32 = get_u32(remaining, 0);
            let name_length: u32 = get_u32(remaining, self.name_length_offset);
            let ghost before = entry_views(entries@);
            entries.push(entry);
            assert(entry_views(entries@) =~= before.push(self.entry_of(remaining@)));
            if next == 0 {
                assert(entry_views(entries@) =~= before + seq![self.entry_of(remaining@)]);
                return Ok(entries);
            }
            if (next as usize) < self.fixed_size + name_length as usize || next as usize
                > remaining.len() || next % 8 != 0 {
                return Err(FsQueryError::InvalidData(self.next_invalid));
            }
            proof {
                assert(remaining@.skip(next as int) =~= buffer@.skip(offset + next));
                let rest = self.listing_of(remaining@.skip(next as int));
                if rest is Ok {
                    assert(before + (seq![self.entry_of(remaining@)] + rest->Ok_0)
                        =~= entry_views(entries@) + rest->Ok_0);
                }
            }
            offset = offset + next as usize;
        }
        proof {
            assert(buffer@.skip(end as int).len() == 0);
            assert(entry_views(entries@) + Seq::<NameEntryView>::empty() =~= entry_views(entries@));
        }
        Ok(entries)
    }
}

/// Entries followed by the outcome for what stands behind them.
pub open spec fn extended(
    first: Seq<NameEntryView>,
    rest: Result<Seq<NameEntryView>, FsQueryError>,
) -> Result<Seq<NameEntryView>, FsQueryError> {
    match rest {
        Err(e) => Err(e),
        Ok(entries) => Ok(first + entries),
    }
}

/// No entries before the others change nothing.
proof fn lemma_extended_by_none(layout: EntryLayout, b: Seq<u8>)
    ensures
        extended(Seq::empty(), layout.listing_of(b)) == layout.listing_of(b),
{
    if layout.listing_of(b) is Ok {
        let entries = layout.listing_of(b)->Ok_0;
        assert(Seq::<NameEntryView>::empty() + entries =~= entries);
    }
}

/// Reads the entries of a FileNamesInformation.
pub fn decode_file_names_information(buffer: &[u8]) -> (r: Result<
    Vec<DirectoryNameEntry>,
    FsQueryError,
>)
    ensures
        match names_layout().listing_of(buffer@) {
            Err(e) => r == Err::<Vec<DirectoryNameEntry>, FsQueryError>(e),
            Ok(entries) => r is Ok && entry_views(r->Ok_0@) == entries,
        },
{
    let layout = EntryLayout {
        fixed_size: FILE_NAMES_INFORMATION_FIXED_SIZE,
        name_length_offset: 8,
        too_short: "FileNamesInformation entry is shorter than 12 bytes",
        name_unaligned: "FileNamesInformation FileNameLength is not UTF-16 aligned",
        name_overflow: "FileNamesInformation FileNameLength overflow",
        name_outside: "FileNamesInformation file name exceeds response buffer",
        next_invalid: "FileNamesInformation NextEntryOffset is invalid",
    };
    layout.decode_listing(buffer)
}

/// Reads the entries of a FileIdFullDirectoryInformation.
pub fn decode_file_id_full_directory_information(buffer: &[u8]) -> (r: Result<
    Vec<DirectoryNameEntry>,
    FsQueryError,
>)
    ensures
        match id_full_layout().listing_of(buffer@) {
            Err(e) => r == Err::<Vec<DirectoryNameEntry>, FsQueryError>(e),
            Ok(entries) => r is Ok && entry_views(r->Ok_0@) == entries,
        },
{
    let layout = EntryLayout {
        fixed_size: FILE_ID_FULL_DIRECTORY_INFORMATION_FIXED_SIZE,
        name_length_offset: FILE_ID_FULL_DIRECTORY_INFORMATION_NAME_LENGTH_OFFSET,
        too_short: "FileIdFullDirectoryInformation entry is shorter than 80 bytes",
        name_unaligned: "FileIdFullDirectoryInformation FileNameLength is not UTF-16 aligned",
        name_overflow: "FileIdFullDirectoryInformation FileNameLength overflow",
        name_outside: "FileIdFullDirectoryInformation file name exceeds response buffer",
        next_invalid: "FileIdFullDirectoryInformation NextEntryOffset is invalid",
    };
    layout.decode_listing(buffer)
}

/// Whether options ask for the standard information of a file.
pub open spec fn asks_standard_information(options: QueryInfoOptions) -> bool {
    &&& options.info_type == INFO_TYPE_FILE
    &&& options.file_info_class == FILE_STANDARD_INFORMATION_CLASS
    &&& options.output_buffer_length == STANDARD_INFORMATION_SIZE
    &&& options.input_buffer@.len() == 0
    &&& options.additional_information == 0
    &&& options.flags == QUERY_INFO_FLAG_NONE
    &&& options.credit_request == 16
}

/// Whether a request with some options is what came of a session.
pub open spec fn info_query_begun<T>(
    r: Result<(Vec<u8>, PendingQuery), FsQueryError>,
    session: SessionConnection<T>,
    after: SessionConnection<T>,
    file: FileHandle,
    options: QueryInfoOptions,
) -> bool {
    &&& match query_info_begin_error(session, file.file_id, file.tree_id, options) {
        Some(e) => r == Err::<(Vec<u8>, PendingQuery), _>(FsQueryError::Client(e)),
        None => r is Ok && r->Ok_0.0@ == session.request_signed(
            session.signing_required,
            query_info_plain(session, file.file_id, file.tree_id, options),
        ) && r->Ok_0.1 == (PendingQuery {
            kind: QueryKind::Info,
            message_id: session.connection.message_ids.next,
            tree_id: file.tree_id,
            output_buffer_length: options.output_buffer_length,
        }),
    }
    &&& after == (SessionConnection {
        connection: if query_info_refusal(session, options) is Some {
            session.connection
        } else {
            session.connection.charged(query_info_charge(session, options))
        },
        ..session
    })
}

/// Asks for the standard information of a file.
pub fn begin_query_standard_information<T>(
    session: &mut SessionConnection<T>,
    file: &FileHandle,
) -> (r: Result<(Vec<u8>, PendingQuery), FsQueryError>)
    ensures
        exists|options: QueryInfoOptions| #[trigger]
            asks_standard_information(options) && info_query_begun(
                r,
                *old(session),
                *final(session),
                *file,
                options,
            ),
{
    let options = QueryInfoOptions::file(FILE_STANDARD_INFORMATION_CLASS, 24);
    let ghost asked = options;
    assert(asks_standard_information(asked));
    match session.begin_query_info(file, options) {
        Ok(begun) => Ok(begun),
        Err(e) => Err(FsQueryError::Client(e)),
    }
}

/// A session after the response to a query.
pub open spec fn query_answered<T>(
    session: SessionConnection<T>,
    pending: PendingQuery,
    m: Seq<u8>,
) -> SessionConnection<T> {
    SessionConnection {
        connection: if query_answer_error(session, pending, m) is Some {
            session.connection
        } else {
            session.connection.granted(header_of(m).credits)
        },
        ..session
    }
}

/// Takes the response to a query for the standard information of a file.
pub fn finish_query_standard_information<T>(
    session: &mut SessionConnection<T>,
    pending: PendingQuery,
    response_message: &[u8],
) -> (r: Result<FileStandardInformation, FsQueryError>)
    ensures
        r == match query_output_of(*old(session), pending, response_message@) {
            Err(e) => Err(FsQueryError::Client(e)),
            Ok(output) => standard_information_of(output),
        },
        *final(session) == query_answered(*old(session), pending, response_message@),
{
    match session.finish_query(pending, response_message) {
        Err(e) => Err(FsQueryError::Client(e)),
        Ok(buffer) => FileStandardInformation::decode(buffer.as_slice()),
    }
}

/// Whether options ask for the names of a directory that match a pattern.
pub open spec fn asks_names(options: QueryDirectoryOptions, pattern: Seq<char>) -> bool {
    &&& options.file_information_class == FILE_ID_FULL_DIRECTORY_INFORMATION_CLASS
    &&& options.flags == QUERY_DIRECTORY_FLAG_NONE
    &&& options.file_index == 0
    &&& options.file_name@ == pattern
    &&& options.output_buffer_length == DEFAULT_QUERY_BUFFER_SIZE
    &&& options.credit_request == 16
}

/// A listing of a directory in progress.
#[derive(Debug)]
pub struct DirectoryListing {
    /// What has come so far.
    pub entries: Vec<DirectoryNameEntry>,
    /// The query that is out.
    pub pending: PendingQuery,
}

/// What to do next in a listing.
#[derive(Debug)]
pub enum ListingStep {
    /// Send this request and hand its response back.
    Send(DirectoryListing, Vec<u8>),
    /// All entries have come.
    Done(Vec<DirectoryNameEntry>),
}

/// Whether a request for names with some options is what came of a session.
pub open spec fn names_query_begun<T>(
    r: Result<(DirectoryListing, Vec<u8>), FsQueryError>,
    session: SessionConnection<T>,
    after: SessionConnection<T>,
    directory: FileHandle,
    options: QueryDirectoryOptions,
    entries: Seq<NameEntryView>,
) -> bool {
    &&& match query_directory_begin_error(
        session,
        directory.file_id,
        directory.tree_id,
        options,
    ) {
        Some(e) => r == Err::<(DirectoryListing, Vec<u8>), _>(FsQueryError::Client(e)),
        None => r is Ok && r->Ok_0.1@ == session.request_signed(
            session.signing_required,
            query_directory_plain(session, directory.file_id, directory.tree_id, options),
        ) && r->Ok_0.0.pending == (PendingQuery {
            kind: QueryKind::Directory,
            message_id: session.connection.message_ids.next,
            tree_id: directory.tree_id,
            output_buffer_length: options.output_buffer_length,
        }) && entry_views(r->Ok_0.0.entries@) == entries,
    }
    &&& after == (SessionConnection {
        connection: if query_directory_refusal(session, options) is Some {
            session.connection
        } else {
            session.connection.charged(query_directory_charge(session, options))
        },
        ..session
    })
}

/// Whether a request for the names that match a pattern is what came of a session.
pub open spec fn names_asked<T>(
    r: Result<(DirectoryListing, Vec<u8>), FsQueryError>,
    session: SessionConnection<T>,
    after: SessionConnection<T>,
    directory: FileHandle,
    pattern: Seq<char>,
    entries: Seq<NameEntryView>,
) -> bool {
    exists|options: QueryDirectoryOptions| #[trigger]
        asks_names(options, pattern) && names_query_begun(
            r,
            session,
            after,
            directory,
            options,
            entries,
        )
}

/// Asks for the names of a directory that match a pattern, or for those that follow.
fn ask_names<T>(
    session: &mut SessionConnection<T>,
    directory: &FileHandle,
    pattern: &str,
    entries: Vec<DirectoryNameEntry>,
) -> (r: Result<(DirectoryListing, Vec<u8>), FsQueryError>)
    ensures
        names_asked(
            r,
            *old(session),
            *final(session),
            *directory,
            pattern@,
            entry_views(entries@),
        ),
        r is Ok ==> query_directory_sent(
            r->Ok_0.1@,
            *old(session),
            directory.file_id,
            directory.tree_id,
            38,
            0,
            0,
            65_535,
            pattern@,
            16,
        ),
{
    let options = QueryDirectoryOptions::new(
        FILE_ID_FULL_DIRECTORY_INFORMATION_CLASS,
        copy_text(pattern),
        DEFAULT_QUERY_BUFFER_SIZE,
    );
    let ghost asked = options;
    assert(asks_names(asked, pattern@));
    let ghost found = entry_views(entries@);
    let r: Result<(DirectoryListing, Vec<u8>), FsQueryError> = match session.begin_query_directory(
        directory,
        options,
    ) {
        Ok((message, pending)) => Ok((DirectoryListing { entries, pending }, message)),
        Err(e) => Err(FsQueryError::Client(e)),
    };
    proof {
        assert(names_query_begun(r, *old(session), *session, *directory, asked, found));
        if r is Ok {
            law_listing_request(r, *old(session), *session, *directory, pattern@, found);
        }
    }
    r
}

/// Begins to list the names of a directory that match a pattern.
pub fn begin_read_directory_names_matching<T>(
    session: &mut SessionConnection<T>,
    directory: &FileHandle,
    pattern: &str,
) -> (r: Result<(DirectoryListing, Vec<u8>), FsQueryError>)
    ensures
        if pattern@.len() == 0 {
            r == Err::<(DirectoryListing, Vec<u8>), _>(
                FsQueryError::InvalidData(
                    "directory search pattern must not be empty on the first query",
                ),
            ) && *final(session) == *old(session)
        } else {
            names_asked(
                r,
                *old(session),
                *final(session),
                *directory,
                pattern@,
                Seq::empty(),
            )
        },
        r is Ok ==> query_directory_sent(
            r->Ok_0.1@,
            *old(session),
            directory.file_id,
            directory.tree_id,
            38,
            0,
            0,
            65_535,
            pattern@,
            16,
        ),
{
    if pattern.is_empty() {
        return Err(
            FsQueryError::InvalidData(
                "directory search pattern must not be empty on the first query",
            ),
        );
    }
    let none: Vec<DirectoryNameEntry> = Vec::new();
    assert(entry_views(none@) =~= Seq::empty());
    ask_names(session, directory, pattern, none)
}

/// Begins to list all names of a directory.
pub fn begin_read_directory_names<T>(session: &mut SessionConnection<T>, directory: &FileHandle) -> (r:
    Result<(DirectoryListing, Vec<u8>), FsQueryError>)
    ensures
        names_asked(r, *old(session), *final(session), *directory, "*"@, Seq::empty()),
        r is Ok ==> query_directory_sent(
            r->Ok_0.1@,
            *old(session),
            directory.file_id,
            directory.tree_id,
            38,
            0,
            0,
            65_535,
            seq!['*'],
            16,
        ),
{
    proof {
        reveal_strlit("*");
        assert("*"@ =~= seq!['*']);
    }
    begin_read_directory_names_matching(session, directory, "*")
}

/// Whether a step is what a response in a listing calls for: its entries join those before them and
/// the next query, with no pattern, goes out, until a response has none.
pub open spec fn listing_continued<T>(
    r: Result<ListingStep, FsQueryError>,
    session: SessionConnection<T>,
    after: SessionConnection<T>,
    directory: FileHandle,
    entries: Seq<NameEntryView>,
    pending: PendingQuery,
    m: Seq<u8>,
) -> bool {
    let answered = query_answered(session, pending, m);
    match query_output_of(session, pending, m) {
        Err(e) => r == Err::<ListingStep, _>(FsQueryError::Client(e)) && after == answered,
        Ok(output) => if output.len() == 0 {
            r is Ok && r->Ok_0 is Done && entry_views(r->Ok_0->Done_0@) == entries && after
                == answered
        } else {
            match id_full_layout().listing_of(output) {
                Err(e) => r == Err::<ListingStep, FsQueryError>(e) && after == answered,
                Ok(more) => (r is Ok ==> r->Ok_0 is Send) && names_asked(
                    match r {
                        Ok(step) => Ok((step->Send_0, step->Send_1)),
                        Err(e) => Err(e),
                    },
                    answered,
                    after,
                    directory,
                    Seq::empty(),
                    entries + more,
                ),
            }
        },
    }
}

/// Takes a response in a listing.
pub fn continue_read_directory_names<T>(
    session: &mut SessionConnection<T>,
    directory: &FileHandle,
    listing: DirectoryListing,
    response_message: &[u8],
) -> (r: Result<ListingStep, FsQueryError>)
    ensures
        listing_continued(
            r,
            *old(session),
            *final(session),
            *directory,
            entry_views(listing.entries@),
            listing.pending,
            response_message@,
        ),
        r is Ok && r->Ok_0 is Send ==> query_directory_sent(
            r->Ok_0->Send_1@,
            query_answered(*old(session), listing.pending, response_message@),
            directory.file_id,
            directory.tree_id,
            38,
            0,
            0,
            65_535,
            Seq::empty(),
            16,
        ),
{
    let DirectoryListing { mut entries, pending } = listing;
    let buffer = match session.finish_query(pending, response_message) {
        Ok(buffer) => buffer,
        Err(e) => {
            return Err(FsQueryError::Client(e));
        },
    };
    if buffer.len() == 0 {
        return Ok(ListingStep::Done(entries));
    }
    let mut more = decode_file_id_full_directory_information(buffer.as_slice())?;
    let ghost before = entries@;
    let ghost added = more@;
    entries.append(&mut more);
    proof {
        assert(entry_views(before + added) =~= entry_views(before) + entry_views(added));
        reveal_strlit("");
        assert(""@ =~= Seq::<char>::empty());
    }
    let asked = ask_names(session, directory, "", entries);
    let ghost outcome = asked;
    match asked {
        Ok((next, message)) => {
            let r: Result<ListingStep, FsQueryError> = Ok(ListingStep::Send(next, message));
            assert(outcome == Ok::<(DirectoryListing, Vec<u8>), FsQueryError>(
                (r->Ok_0->Send_0, r->Ok_0->Send_1),
            ));
            r
        },
        Err(e) => Err(e),
    }
}

impl EntryLayout {
    /// An entry as a server writes it, with the distance to the next one and zeros in the fields
    /// that are not read.
    #[verifier::opaque]
    pub open spec fn entry_bytes(self, entry: NameEntryView, next: u32) -> Seq<u8> {
        let name = utf16le_of(entry.name);
        le32(next) + le32(entry.file_index) + zeros((self.name_length_offset - 8) as nat) + le32(
            name.len() as u32,
        ) + zeros((self.fixed_size - self.name_length_offset - 4) as nat) + name
    }

    /// How long an entry is.
    pub open spec fn entry_len(self, entry: NameEntryView) -> int {
        self.fixed_size + utf16le_of(entry.name).len()
    }

    /// How far the next entry stands behind an entry: at the next multiple of eight.
    pub open spec fn entry_distance(self, entry: NameEntryView) -> int {
        self.entry_len(entry) + pad8(self.entry_len(entry))
    }

    /// A listing as a server writes it.
    pub open spec fn listing_bytes(self, entries: Seq<NameEntryView>) -> Seq<u8>
        decreases entries.len(),
    {
        if entries.len() == 0 {
            Seq::empty()
        } else if entries.len() == 1 {
            self.entry_bytes(entries[0], 0)
        } else {
            self.entry_bytes(entries[0], self.entry_distance(entries[0]) as u32) + zeros(
                pad8(self.entry_len(entries[0])),
            ) + self.listing_bytes(entries.drop_first())
        }
    }
}

/// An entry reads back from its bytes, whatever follows it.
proof fn lemma_entry_reads_back(
    layout: EntryLayout,
    entry: NameEntryView,
    next: u32,
    rest: Seq<u8>,
)
    requires
        layout.wf(),
        layout.entry_len(entry) <= u32::MAX,
        layout.entry_len(entry) + rest.len() <= usize::MAX,
    ensures
        ({
            let b = layout.entry_bytes(entry, next) + rest;
            &&& layout.entry_bytes(entry, next).len() == layout.entry_len(entry)
            &&& u32_at(b, 0) == next
            &&& u32_at(b, layout.name_length_offset as int) == utf16le_of(entry.name).len()
            &&& layout.entry_error(b) is None
            &&& layout.entry_of(b) == entry
        }),
{
    broadcast use crate::bytes::group_int_len;

    reveal(EntryLayout::entry_bytes);
    let name = utf16le_of(entry.name);
    let at = layout.name_length_offset as int;
    let fixed = layout.fixed_size as int;
    let b = layout.entry_bytes(entry, next) + rest;
    assert(b.subrange(0, 4) =~= le32(next));
    assert(b.subrange(4, 8) =~= le32(entry.file_index));
    assert(b.subrange(at, at + 4) =~= le32(name.len() as u32));
    law_u32_roundtrip(b, 0, next);
    law_u32_roundtrip(b, 4, entry.file_index);
    law_u32_roundtrip(b, at, name.len() as u32);
    assert(b.subrange(fixed, fixed + name.len()) =~= name);
    law_utf16le_roundtrip(entry.name);
    assert(name.len() % 2 == 0);
    assert(layout.name_bytes(b) == name);
}

/// How long the bytes of an entry are.
proof fn lemma_entry_bytes_len(layout: EntryLayout, entry: NameEntryView, next: u32)
    requires
        layout.wf(),
    ensures
        layout.entry_bytes(entry, next).len() == layout.entry_len(entry),
{
    broadcast use crate::bytes::group_int_len;

    reveal(EntryLayout::entry_bytes);
}

/// An entry with more entries behind it reads as itself and what they read as.
proof fn lemma_entry_before_others(
    layout: EntryLayout,
    entry: NameEntryView,
    behind: Seq<u8>,
    others: Seq<NameEntryView>,
)
    requires
        layout.wf(),
        layout.entry_distance(entry) <= u32::MAX,
        layout.entry_distance(entry) + behind.len() <= usize::MAX,
        layout.listing_of(behind) == Ok::<_, FsQueryError>(others),
    ensures
        layout.listing_of(
            layout.entry_bytes(entry, layout.entry_distance(entry) as u32) + zeros(
                pad8(layout.entry_len(entry)),
            ) + behind,
        ) == Ok::<_, FsQueryError>(seq![entry] + others),
{
    let next = layout.entry_distance(entry) as u32;
    let gap = zeros(pad8(layout.entry_len(entry)));
    let first = layout.entry_bytes(entry, next);
    let b = first + gap + behind;
    lemma_entry_bytes_len(layout, entry, next);
    assert(b =~= first + (gap + behind));
    lemma_entry_reads_back(layout, entry, next, gap + behind);
    assert(b.skip(next as int) =~= behind);
    assert(layout.next_fits(b));
}

/// Decoding the bytes of a listing gives the listing back, in its order.
pub proof fn law_listing_reads_back(layout: EntryLayout, entries: Seq<NameEntryView>)
    requires
        layout.wf(),
        layout.listing_bytes(entries).len() <= usize::MAX,
        forall|i: int|
            0 <= i < entries.len() ==> layout.entry_distance(#[trigger] entries[i]) <= u32::MAX,
    ensures
        layout.listing_of(layout.listing_bytes(entries)) == Ok::<_, FsQueryError>(entries),
    decreases entries.len(),
{
    let b = layout.listing_bytes(entries);
    if entries.len() == 0 {
        assert(entries =~= Seq::empty());
    } else if entries.len() == 1 {
        let none = Seq::<u8>::empty();
        assert(layout.entry_distance(entries[0]) <= u32::MAX);
        assert(b + none =~= b);
        lemma_entry_bytes_len(layout, entries[0], 0);
        lemma_entry_reads_back(layout, entries[0], 0, none);
        assert(seq![entries[0]] =~= entries);
    } else {
        let entry = entries[0];
        let others = entries.drop_first();
        let behind = layout.listing_bytes(others);
        assert(layout.entry_distance(entry) <= u32::MAX);
        lemma_entry_bytes_len(layout, entry, layout.entry_distance(entry) as u32);
        assert forall|i: int| 0 <= i < others.len() implies layout.entry_distance(
            #[trigger] others[i],
        ) <= u32::MAX by {
            assert(others[i] == entries[i + 1]);
        }
        law_listing_reads_back(layout, others);
        lemma_entry_before_others(layout, entry, behind, others);
        assert(seq![entry] + others =~= entries);
    }
}

} // verus!
