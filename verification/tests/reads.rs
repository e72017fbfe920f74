use smb_io::auth::provider::AuthMechanism;
use smb_io::auth::secret::SecretBytes;
use smb_io::client::cancel::CancelableStart;
use smb_io::client::cancel::CancelableStep;
use smb_io::client::cancel::STATUS_CANCELLED;
use smb_io::client::connection::Connection;
use smb_io::client::credits::CreditManager;
use smb_io::client::durable_open::DurableHandleV2Options;
use smb_io::client::error::ClientError;
use smb_io::client::file::FileHandle;
use smb_io::client::file::FileOpenOptions;
use smb_io::client::negotiate::NegotiatedParameters;
use smb_io::client::pipeline::PipelinedStart;
use smb_io::client::pipeline::PipelinedStep;
use smb_io::client::query::STATUS_NO_MORE_FILES;
use smb_io::client::read::PipelinedReadOptions;
use smb_io::client::read::PipelinedReadResult;
use smb_io::client::read::ReadOptions;
use smb_io::client::read::SerialStep;
use smb_io::client::read::STATUS_END_OF_FILE;
use smb_io::client::read_async::STATUS_PENDING;
use smb_io::client::session::SessionConnection;
use smb_io::client::signing::SigningAlgorithm;
use smb_io::client::signing::SigningState;
use smb_io::client::tree::TreeHandle;
use smb_io::fs::query::begin_query_standard_information;
use smb_io::fs::query::begin_read_directory_names;
use smb_io::fs::query::begin_read_directory_names_matching;
use smb_io::fs::query::continue_read_directory_names;
use smb_io::fs::query::finish_query_standard_information;
use smb_io::fs::query::FsQueryError;
use smb_io::fs::query::ListingStep;
use smb_io::wire::constants::CAPABILITY_LARGE_MTU;
use smb_io::wire::constants::FLAG_ASYNC_COMMAND;
use smb_io::wire::constants::FLAG_SERVER_TO_REDIR;
use smb_io::wire::constants::FLAG_SIGNED;
use smb_io::wire::file_io::FileId;
use smb_io::wire::header::Command;
use smb_io::wire::header::HeaderId;
use smb_io::wire::header::Smb2Header;
use smb_io::wire::header::StatusField;
use smb_io::wire::negotiate::Dialect;
use std::collections::VecDeque;

const SESSION_ID: u64 = 0x77;
const TREE_ID: u32 = 5;

fn signing_state() -> SigningState {
    SigningState::derive(
        Dialect::Smb302,
        SigningAlgorithm::AesCmac,
        &SecretBytes::new(vec![0x5A; 16]),
        None,
    )
    .unwrap()
}

fn session(credits: u32, max_read_size: u32, signed: bool) -> SessionConnection<()> {
    let mut connection = Connection::new(());
    connection.negotiated = Some(NegotiatedParameters {
        dialect: Dialect::Smb302,
        security_mode: 1,
        capabilities: CAPABILITY_LARGE_MTU,
        server_guid: [0; 16],
        max_transact_size: 1 << 20,
        max_read_size,
        max_write_size: 1 << 20,
        initial_credits: 32,
        signing_algorithm: SigningAlgorithm::AesCmac,
        require_signing: signed,
    });
    connection.credits = Some(CreditManager {
        available: credits,
        target: 128,
    });
    SessionConnection {
        connection,
        session_id: SESSION_ID,
        session_flags: 0,
        mechanism: AuthMechanism::NtlmV2,
        session_key: None,
        signing: if signed { Some(signing_state()) } else { None },
        signing_required: signed,
    }
}

fn file(len: u64) -> FileHandle {
    FileHandle {
        file_id: FileId {
            persistent: 1,
            volatile: 2,
        },
        tree_id: TREE_ID,
        path: "movie.mkv".to_string(),
        oplock_level: 0,
        allocation_size: len,
        end_of_file: len,
        file_attributes: 0,
        creation_time: 0,
        last_access_time: 0,
        last_write_time: 0,
        change_time: 0,
        create_action: 1,
    }
}

fn content(len: usize) -> Vec<u8> {
    (0..len).map(|i| (i * 31 % 253) as u8).collect()
}

fn read_message_id(message: &[u8]) -> u64 {
    u64::from_le_bytes(message[24..32].try_into().unwrap())
}

fn response(
    command: Command,
    message_id: u64,
    status: u32,
    async_id: Option<u64>,
    credits: u16,
    body: &[u8],
    signing: Option<&SigningState>,
) -> Vec<u8> {
    let mut header = Smb2Header::request(command, message_id, 1, credits);
    header.flags = FLAG_SERVER_TO_REDIR;
    header.status = StatusField::Status(status);
    header.session_id = SESSION_ID;
    header.id = match async_id {
        Some(async_id) => {
            header.flags |= FLAG_ASYNC_COMMAND;
            HeaderId::Async { async_id }
        }
        None => HeaderId::Sync {
            process_id: 0,
            tree_id: TREE_ID,
        },
    };
    let mut message = header.encode();
    message.extend_from_slice(body);
    if let Some(signing) = signing {
        signing.sign(&mut message).unwrap();
    }
    message
}

fn error_body() -> Vec<u8> {
    vec![9, 0, 0, 0, 0, 0, 0, 0, 0]
}

fn read_body(data: &[u8]) -> Vec<u8> {
    let mut body = vec![0u8; 16];
    body[0] = 17;
    body[2] = 0x50;
    body[4..8].copy_from_slice(&(data.len() as u32).to_le_bytes());
    body.extend_from_slice(data);
    body
}

/// Answers a READ request from the content of a file.
fn answer(request: &[u8], content: &[u8], signing: Option<&SigningState>) -> Vec<u8> {
    let message_id = read_message_id(request);
    let length = u32::from_le_bytes(request[68..72].try_into().unwrap()) as usize;
    let offset = u64::from_le_bytes(request[72..80].try_into().unwrap()) as usize;
    let charge = u16::from_le_bytes(request[6..8].try_into().unwrap());
    if offset >= content.len() {
        return response(
            Command::Read,
            message_id,
            STATUS_END_OF_FILE,
            None,
            charge,
            &error_body(),
            signing,
        );
    }
    let end = (offset + length).min(content.len());
    response(
        Command::Read,
        message_id,
        0,
        None,
        charge,
        &read_body(&content[offset..end]),
        signing,
    )
}

fn read_pipelined(
    session: &mut SessionConnection<()>,
    file: &FileHandle,
    offset: u64,
    length: usize,
    options: PipelinedReadOptions,
    mut server: impl FnMut(&mut VecDeque<Vec<u8>>) -> Vec<u8>,
) -> Result<PipelinedReadResult, ClientError> {
    let mut read = match session.begin_read_at_pipelined(file, offset, length, options)? {
        PipelinedStart::Done(result) => return Ok(result),
        PipelinedStart::Running(read) => read,
    };
    let mut waiting = VecDeque::new();
    loop {
        match session.poll_read_at_pipelined(read)? {
            PipelinedStep::Send(next, message) => {
                waiting.push_back(message);
                assert!(waiting.len() <= options.max_in_flight);
                read = next;
            }
            PipelinedStep::Receive(next) => {
                let message = server(&mut waiting);
                read = session.accept_read_at_pipelined(next, &message)?;
            }
            PipelinedStep::Done(result) => return Ok(result),
        }
    }
}

fn options(chunk_size: usize, max_in_flight: usize) -> PipelinedReadOptions {
    PipelinedReadOptions {
        chunk_size,
        max_in_flight,
        credit_request: 8,
    }
}

#[test]
fn pipelined_reads_give_file_bytes_in_any_order_of_answers() {
    let bytes = content(1_000);
    for newest_first in [false, true] {
        let mut session = session(64, 1 << 20, true);
        let signing = signing_state();
        let result = read_pipelined(
            &mut session,
            &file(1_000),
            100,
            650,
            options(100, 4),
            |waiting| {
                let request = if newest_first {
                    waiting.pop_back().unwrap()
                } else {
                    waiting.pop_front().unwrap()
                };
                let header = Smb2Header::decode(&request).unwrap();
                assert_ne!(header.flags & FLAG_SIGNED, 0);
                signing.verify(&request).unwrap();
                answer(&request, &bytes, Some(&signing))
            },
        )
        .unwrap();
        assert_eq!(result.data, &bytes[100..750]);
        assert_eq!(result.stats.requests_sent, 7);
        assert_eq!(result.stats.responses_completed, 7);
        assert_eq!(result.stats.peak_in_flight, 4);
    }
}

#[test]
fn pipelined_reads_stop_at_the_end_of_the_file_and_at_short_answers() {
    let bytes = content(250);
    let mut session = session(64, 1 << 20, false);
    // The handle still says that the file is longer.
    let result = read_pipelined(
        &mut session,
        &file(1_000),
        0,
        1_000,
        options(100, 8),
        |waiting| answer(&waiting.pop_back().unwrap(), &bytes, None),
    )
    .unwrap();
    assert_eq!(result.data, bytes);

    let nothing = read_pipelined(
        &mut session,
        &file(1_000),
        1_000,
        1,
        options(100, 8),
        |_| panic!("nothing is sent"),
    )
    .unwrap();
    assert!(nothing.data.is_empty());
    assert_eq!(nothing.stats.requests_sent, 0);
}

#[test]
fn pipelined_reads_wait_for_credits() {
    let bytes = content(300_000);
    let mut session = session(2, 1 << 20, false);
    let result = read_pipelined(
        &mut session,
        &file(300_000),
        0,
        300_000,
        options(200_000, 4),
        |waiting| answer(&waiting.pop_front().unwrap(), &bytes, None),
    )
    .unwrap();
    assert_eq!(result.data, bytes);
    assert!(result.stats.credit_stalls > 0);
    // No request asks for more than two credits pay for.
    assert_eq!(result.stats.requests_sent, 3);
    assert_eq!(session.available_credits(), Some(2));
}

#[test]
fn pipelined_errors_are_reported_after_all_answers() {
    let bytes = content(1_000);
    let mut session = session(64, 1 << 20, false);
    let mut answered = 0;
    let outcome = read_pipelined(
        &mut session,
        &file(1_000),
        0,
        400,
        options(100, 4),
        |waiting| {
            answered += 1;
            let request = waiting.pop_front().unwrap();
            if answered == 2 {
                return response(
                    Command::Read,
                    read_message_id(&request),
                    0xC000_0022,
                    None,
                    1,
                    &error_body(),
                    None,
                );
            }
            answer(&request, &bytes, None)
        },
    );
    assert!(matches!(
        outcome,
        Err(ClientError::ServerStatus(0xC000_0022))
    ));
    assert_eq!(answered, 4);
}

#[test]
fn unknown_and_unsigned_answers_are_refused() {
    let bytes = content(1_000);
    let mut plain = session(64, 1 << 20, false);
    assert!(matches!(
        read_pipelined(&mut plain, &file(1_000), 0, 50, options(100, 1), |waiting| {
            let mut message = answer(&waiting.pop_front().unwrap(), &bytes, None);
            message[24] = 99;
            message
        }),
        Err(ClientError::Protocol(
            "pipelined READ response MessageId is not outstanding"
        ))
    ));
    let mut signed = session(64, 1 << 20, true);
    assert!(matches!(
        read_pipelined(
            &mut signed,
            &file(1_000),
            0,
            50,
            options(100, 1),
            |waiting| answer(&waiting.pop_front().unwrap(), &bytes, None)
        ),
        Err(ClientError::Protocol(_))
    ));
    let mut tampered = session(64, 1 << 20, true);
    let signing = signing_state();
    assert!(read_pipelined(
        &mut tampered,
        &file(1_000),
        0,
        50,
        options(100, 1),
        |waiting| {
            let mut message = answer(&waiting.pop_front().unwrap(), &bytes, Some(&signing));
            let last = message.len() - 1;
            message[last] ^= 1;
            message
        }
    )
    .is_err());
    assert!(matches!(
        plain.begin_read_at_pipelined(&file(10), 0, 1, options(0, 1)),
        Err(ClientError::Protocol(_))
    ));
    assert!(matches!(
        plain.begin_read_at_pipelined(&file(10), 0, 1, options(1, 0)),
        Err(ClientError::Protocol(_))
    ));
}

#[test]
fn an_unsigned_interim_answer_may_come_before_the_signed_one() {
    let bytes = content(100);
    let mut session = session(64, 1 << 20, true);
    let signing = signing_state();
    let mut interim_sent = false;
    let result = read_pipelined(
        &mut session,
        &file(100),
        0,
        100,
        options(100, 1),
        |waiting| {
            let request = waiting.front().unwrap();
            let message_id = read_message_id(request);
            if !interim_sent {
                interim_sent = true;
                return response(
                    Command::Read,
                    message_id,
                    STATUS_PENDING,
                    Some(44),
                    1,
                    &error_body(),
                    None,
                );
            }
            response(
                Command::Read,
                message_id,
                0,
                Some(44),
                1,
                &read_body(&bytes),
                Some(&signing),
            )
        },
    )
    .unwrap();
    assert_eq!(result.data, bytes);
}

/// What a cancelable read asked for: requests that were sent, by command.
struct Log {
    reads: usize,
    cancels: Vec<(u64, Option<u64>)>,
}

fn read_cancelable(
    session: &mut SessionConnection<()>,
    file: &FileHandle,
    offset: u64,
    length: usize,
    options: PipelinedReadOptions,
    mut current: impl FnMut(&Log) -> bool,
    mut server: impl FnMut(&mut VecDeque<Vec<u8>>, &Log) -> Vec<u8>,
) -> (Result<Vec<u8>, ClientError>, Log, usize) {
    let mut log = Log {
        reads: 0,
        cancels: Vec::new(),
    };
    let mut waiting = VecDeque::new();
    let mut read = match session.begin_read_at_cancelable(
        file,
        offset,
        length,
        options,
        current(&log),
    ) {
        Ok(CancelableStart::Done(data)) => return (Ok(data), log, 0),
        Ok(CancelableStart::Running(read)) => read,
        Err(error) => return (Err(error), log, 0),
    };
    loop {
        match session.poll_read_at_cancelable(read, current(&log)) {
            Ok(CancelableStep::Send(next, message)) => {
                let header = Smb2Header::decode(&message).unwrap();
                match header.command {
                    Command::Read => {
                        log.reads += 1;
                        waiting.push_back(message);
                    }
                    Command::Cancel => log.cancels.push((
                        header.message_id,
                        match header.id {
                            HeaderId::Async { async_id } => Some(async_id),
                            HeaderId::Sync { .. } => None,
                        },
                    )),
                    other => panic!("unexpected {other:?}"),
                }
                read = next;
            }
            Ok(CancelableStep::Again(next)) => read = next,
            Ok(CancelableStep::Receive(next)) => {
                let message = server(&mut waiting, &log);
                read = match session.accept_read_at_cancelable(next, &message) {
                    Ok(read) => read,
                    Err(error) => return (Err(error), log, waiting.len()),
                };
            }
            Ok(CancelableStep::Done(data)) => return (Ok(data), log, waiting.len()),
            Err(error) => return (Err(error), log, waiting.len()),
        }
    }
}

#[test]
fn cancelable_reads_give_file_bytes() {
    let bytes = content(1_000);
    let mut session = session(64, 1 << 20, true);
    let signing = signing_state();
    let (data, log, _) = read_cancelable(
        &mut session,
        &file(1_000),
        50,
        900,
        options(100, 3),
        |_| true,
        |waiting, _| answer(&waiting.pop_back().unwrap(), &bytes, Some(&signing)),
    );
    assert_eq!(data.unwrap(), &bytes[50..950]);
    assert_eq!(log.reads, 9);
    assert!(log.cancels.is_empty());
}

#[test]
fn a_cancelled_read_cancels_and_drains_everything() {
    let bytes = content(1_000);
    let mut session = session(64, 1 << 20, false);
    let (outcome, log, left) = read_cancelable(
        &mut session,
        &file(1_000),
        0,
        1_000,
        options(100, 4),
        // The generation is over once three requests are out.
        |log| log.reads < 3,
        |waiting, log| {
            assert_eq!(log.cancels.len(), 3);
            let request = waiting.pop_front().unwrap();
            if waiting.len() == 1 {
                // One answer was on its way before the CANCEL.
                return answer(&request, &bytes, None);
            }
            response(
                Command::Read,
                read_message_id(&request),
                STATUS_CANCELLED,
                None,
                1,
                &error_body(),
                None,
            )
        },
    );
    assert!(matches!(outcome, Err(ClientError::Cancelled)));
    assert_eq!(log.reads, 3);
    assert_eq!(left, 0);
    assert!(log.cancels.iter().all(|(_, async_id)| async_id.is_none()));

    // The connection goes on.
    let (data, _, _) = read_cancelable(
        &mut session,
        &file(1_000),
        0,
        1_000,
        options(100, 4),
        |_| true,
        |waiting, _| answer(&waiting.pop_front().unwrap(), &bytes, None),
    );
    assert_eq!(data.unwrap(), bytes);
}

#[test]
fn a_cancel_names_the_async_id_once_it_is_known() {
    let mut session = session(64, 1 << 20, false);
    let mut answers = 0;
    let generation_over = std::cell::Cell::new(false);
    let (outcome, log, _) = read_cancelable(
        &mut session,
        &file(1_000),
        0,
        200,
        options(100, 2),
        |_| !generation_over.get(),
        |waiting, _| {
            answers += 1;
            let first = read_message_id(&waiting[0]);
            let second = read_message_id(&waiting[1]);
            let pending = |message_id, async_id| {
                response(
                    Command::Read,
                    message_id,
                    STATUS_PENDING,
                    Some(async_id),
                    1,
                    &error_body(),
                    None,
                )
            };
            let cancelled = |message_id, async_id| {
                response(
                    Command::Read,
                    message_id,
                    STATUS_CANCELLED,
                    Some(async_id),
                    1,
                    &error_body(),
                    None,
                )
            };
            match answers {
                1 => {
                    generation_over.set(true);
                    pending(first, 71)
                }
                2 => pending(second, 72),
                3 => cancelled(first, 71),
                _ => cancelled(second, 72),
            }
        },
    );
    assert!(matches!(outcome, Err(ClientError::Cancelled)));
    assert_eq!(answers, 4);
    // The first is known by its AsyncId, the second is told again when it gets one.
    assert_eq!(log.cancels.len(), 3);
    assert_eq!(log.cancels[0].1, Some(71));
    assert_eq!(log.cancels[1].1, None);
    assert_eq!(log.cancels[2].1, Some(72));
    assert_eq!(log.cancels[1].0, log.cancels[2].0);
}

#[test]
fn nothing_is_sent_for_a_read_of_a_generation_that_is_over() {
    let mut session = session(64, 1 << 20, false);
    let (outcome, log, _) = read_cancelable(
        &mut session,
        &file(1_000),
        0,
        10,
        options(100, 2),
        |_| false,
        |_, _| panic!("nothing is sent"),
    );
    assert!(matches!(outcome, Err(ClientError::Cancelled)));
    assert_eq!(log.reads, 0);
}

#[test]
fn serial_reads_are_cut_by_the_negotiated_size() {
    let bytes = content(1_000);
    let mut session = session(64, 300, false);
    let mut step = session
        .begin_read_at(&file(1_000), 10, 5_000, ReadOptions::default())
        .unwrap();
    let mut requests = 0;
    let data = loop {
        match step {
            SerialStep::Send(read, message) => {
                requests += 1;
                let length = u32::from_le_bytes(message[68..72].try_into().unwrap());
                assert!(length <= 300);
                step = session
                    .continue_read_at(read, &answer(&message, &bytes, None))
                    .unwrap();
            }
            SerialStep::Receive(_) => panic!("no interim answer was given"),
            SerialStep::Done(data) => break data,
        }
    };
    assert_eq!(data, &bytes[10..]);
    assert_eq!(requests, 4);
}

fn tree() -> TreeHandle {
    TreeHandle {
        tree_id: TREE_ID,
        path: "\\\\nas\\video".to_string(),
        share_type: 1,
        share_flags: 0,
        capabilities: 0,
        maximal_access: 0,
    }
}

fn create_response(message_id: u64, contexts: &[u8]) -> Vec<u8> {
    let mut body = vec![0u8; 88];
    body[0] = 89;
    body[2] = 9;
    body[4] = 1;
    body[48..56].copy_from_slice(&4_096u64.to_le_bytes());
    body[64] = 1;
    body[72] = 2;
    if !contexts.is_empty() {
        body[80..84].copy_from_slice(&152u32.to_le_bytes());
        body[84..88].copy_from_slice(&(contexts.len() as u32).to_le_bytes());
    }
    body.extend_from_slice(contexts);
    response(Command::Create, message_id, 0, None, 8, &body, None)
}

fn durable_grant(timeout_ms: u32, flags: u32) -> Vec<u8> {
    let mut context = Vec::new();
    context.extend_from_slice(&0u32.to_le_bytes());
    context.extend_from_slice(&16u16.to_le_bytes());
    context.extend_from_slice(&4u16.to_le_bytes());
    context.extend_from_slice(&0u16.to_le_bytes());
    context.extend_from_slice(&24u16.to_le_bytes());
    context.extend_from_slice(&8u32.to_le_bytes());
    context.extend_from_slice(b"DH2Q");
    context.extend_from_slice(&[0; 4]);
    context.extend_from_slice(&timeout_ms.to_le_bytes());
    context.extend_from_slice(&flags.to_le_bytes());
    context
}

#[test]
fn durable_opens_are_granted_and_taken_up_again() {
    let mut session = session(64, 1 << 20, false);
    let (message, pending) = session
        .begin_open_file_durable_v2(
            &tree(),
            "a/b.mkv",
            FileOpenOptions::read_existing_random(),
            [3; 16],
            DurableHandleV2Options::default(),
        )
        .unwrap();
    let id = read_message_id(&message);
    // A batch oplock goes with a durable handle.
    assert_eq!(message[67], 9);
    let durable = session
        .finish_open_file_durable_v2(pending, &create_response(id, &durable_grant(45_000, 0)))
        .unwrap();
    assert_eq!(durable.server_timeout_ms(), 45_000);
    assert_eq!(durable.create_guid(), [3; 16]);
    assert!(!durable.persistent());
    assert_eq!(durable.file().path(), "a\\b.mkv");

    let (message, pending) = session
        .begin_reconnect_file_durable_v2(&tree(), &durable)
        .unwrap();
    let id = read_message_id(&message);
    let refreshed = session
        .finish_reconnect_file_durable_v2(pending, &create_response(id, &[]))
        .unwrap();
    assert_eq!(refreshed.file().len(), 4_096);
    assert_eq!(refreshed.create_guid(), [3; 16]);

    let (message, pending) = session
        .begin_open_file_durable_v2(
            &tree(),
            "a/b.mkv",
            FileOpenOptions::read_existing_random(),
            [3; 16],
            DurableHandleV2Options::default(),
        )
        .unwrap();
    let id = read_message_id(&message);
    assert!(session
        .finish_open_file_durable_v2(pending, &create_response(id, &[]))
        .is_err());
}

fn query_response(command: Command, message_id: u64, status: u32, output: &[u8]) -> Vec<u8> {
    if status != 0 {
        return response(command, message_id, status, None, 4, &error_body(), None);
    }
    let mut body = vec![0u8; 8];
    body[0] = 9;
    body[2] = 72;
    body[4..8].copy_from_slice(&(output.len() as u32).to_le_bytes());
    body.extend_from_slice(output);
    response(command, message_id, 0, None, 4, &body, None)
}

fn directory_entry(file_index: u32, name: &str) -> Vec<u8> {
    let units: Vec<u8> = name.encode_utf16().flat_map(u16::to_le_bytes).collect();
    let mut entry = vec![0u8; 80];
    entry[4..8].copy_from_slice(&file_index.to_le_bytes());
    entry[60..64].copy_from_slice(&(units.len() as u32).to_le_bytes());
    entry.extend_from_slice(&units);
    entry
}

#[test]
fn standard_information_is_queried() {
    let mut session = session(64, 1 << 20, false);
    let (message, pending) = begin_query_standard_information(&mut session, &file(9)).unwrap();
    let id = read_message_id(&message);
    let mut output = vec![0u8; 24];
    output[8] = 9;
    output[21] = 1;
    let info = finish_query_standard_information(
        &mut session,
        pending,
        &query_response(Command::QueryInfo, id, 0, &output),
    )
    .unwrap();
    assert_eq!(info.end_of_file, 9);
    assert!(info.directory);

    let (message, pending) = begin_query_standard_information(&mut session, &file(9)).unwrap();
    let id = read_message_id(&message);
    assert!(matches!(
        finish_query_standard_information(
            &mut session,
            pending,
            &query_response(Command::QueryInfo, id, 0xC000_0022, &[]),
        ),
        Err(FsQueryError::Client(ClientError::ServerStatus(0xC000_0022)))
    ));
}

#[test]
fn directories_are_listed_until_there_are_no_more_files() {
    let mut session = session(64, 1 << 20, false);
    let directory = file(0);
    assert!(matches!(
        begin_read_directory_names_matching(&mut session, &directory, ""),
        Err(FsQueryError::InvalidData(_))
    ));
    let (mut listing, mut message) =
        begin_read_directory_names(&mut session, &directory).unwrap();
    let outputs = [
        directory_entry(1, "one.mkv"),
        directory_entry(2, "zwei.mkv"),
    ];
    let mut round = 0;
    let entries = loop {
        let id = read_message_id(&message);
        // Only the first query has a pattern.
        let name_length = u16::from_le_bytes(message[90..92].try_into().unwrap());
        assert_eq!(name_length, if round == 0 { 2 } else { 0 });
        let answer = if round < outputs.len() {
            query_response(Command::QueryDirectory, id, 0, &outputs[round])
        } else {
            query_response(Command::QueryDirectory, id, STATUS_NO_MORE_FILES, &[])
        };
        round += 1;
        match continue_read_directory_names(&mut session, &directory, listing, &answer).unwrap() {
            ListingStep::Send(next, request) => {
                listing = next;
                message = request;
            }
            ListingStep::Done(entries) => break entries,
        }
    };
    assert_eq!(round, 3);
    assert_eq!(entries.len(), 2);
    assert_eq!(entries[0].name, "one.mkv");
    assert_eq!(entries[1].name, "zwei.mkv");
    assert_eq!(entries[1].file_index, 2);
}
