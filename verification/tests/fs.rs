use smb_io::client::error::ClientError;
use smb_io::fs::query::decode_file_id_full_directory_information;
use smb_io::fs::query::decode_file_names_information;
use smb_io::fs::query::FileStandardInformation;
use smb_io::fs::query::FsQueryError;
use smb_io::fs::query::FILE_ID_FULL_DIRECTORY_INFORMATION_FIXED_SIZE;
use smb_io::fs::query::FILE_ID_FULL_DIRECTORY_INFORMATION_NAME_LENGTH_OFFSET;
use smb_io::fs::query::FILE_NAMES_INFORMATION_FIXED_SIZE;
use smb_io::fs::query::STANDARD_INFORMATION_SIZE;
use smb_io::fs::FileKind;

fn utf16(name: &str) -> Vec<u8> {
    name.encode_utf16().flat_map(u16::to_le_bytes).collect()
}

#[test]
fn decodes_file_standard_information() {
    let mut buffer = [0u8; STANDARD_INFORMATION_SIZE];
    buffer[0..8].copy_from_slice(&8192i64.to_le_bytes());
    buffer[8..16].copy_from_slice(&1234i64.to_le_bytes());
    buffer[16..20].copy_from_slice(&2u32.to_le_bytes());
    buffer[20] = 1;
    buffer[21] = 0;

    let info = FileStandardInformation::decode(&buffer).unwrap();
    assert_eq!(info.allocation_size, 8192);
    assert_eq!(info.end_of_file, 1234);
    assert_eq!(info.number_of_links, 2);
    assert!(info.delete_pending);
    assert!(!info.directory);
}

#[test]
fn negative_sizes_and_short_buffers_are_no_standard_information() {
    let mut buffer = [0u8; STANDARD_INFORMATION_SIZE];
    buffer[0..8].copy_from_slice(&(-1i64).to_le_bytes());
    assert!(matches!(
        FileStandardInformation::decode(&buffer),
        Err(FsQueryError::InvalidData(
            "FileStandardInformation AllocationSize is negative"
        ))
    ));
    buffer[0..8].copy_from_slice(&i64::MAX.to_le_bytes());
    buffer[8..16].copy_from_slice(&i64::MIN.to_le_bytes());
    assert!(matches!(
        FileStandardInformation::decode(&buffer),
        Err(FsQueryError::InvalidData(
            "FileStandardInformation EndOfFile is negative"
        ))
    ));
    assert!(matches!(
        FileStandardInformation::decode(&buffer[..23]),
        Err(FsQueryError::InvalidData(
            "FileStandardInformation is shorter than 24 bytes"
        ))
    ));
}

#[test]
fn decodes_multiple_file_names_using_next_entry_offsets() {
    let first_name = utf16("one.txt");
    let second_name = utf16("two.mkv");
    let first_size = FILE_NAMES_INFORMATION_FIXED_SIZE + first_name.len();
    let first_aligned = (first_size + 7) & !7;
    let second_size = FILE_NAMES_INFORMATION_FIXED_SIZE + second_name.len();
    let mut buffer = vec![0u8; first_aligned + second_size];

    buffer[0..4].copy_from_slice(&(first_aligned as u32).to_le_bytes());
    buffer[4..8].copy_from_slice(&1u32.to_le_bytes());
    buffer[8..12].copy_from_slice(&(first_name.len() as u32).to_le_bytes());
    buffer[12..12 + first_name.len()].copy_from_slice(&first_name);

    let second = first_aligned;
    buffer[second + 4..second + 8].copy_from_slice(&2u32.to_le_bytes());
    buffer[second + 8..second + 12].copy_from_slice(&(second_name.len() as u32).to_le_bytes());
    buffer[second + 12..second + 12 + second_name.len()].copy_from_slice(&second_name);

    let entries = decode_file_names_information(&buffer).unwrap();
    assert_eq!(entries.len(), 2);
    assert_eq!(entries[0].name, "one.txt");
    assert_eq!(entries[1].name, "two.mkv");
}

#[test]
fn decodes_multiple_file_id_full_names_using_next_entry_offsets() {
    let first_name = utf16("one.txt");
    let second_name = utf16("two.mkv");
    let first_size = FILE_ID_FULL_DIRECTORY_INFORMATION_FIXED_SIZE + first_name.len();
    let first_aligned = (first_size + 7) & !7;
    let second_size = FILE_ID_FULL_DIRECTORY_INFORMATION_FIXED_SIZE + second_name.len();
    let mut buffer = vec![0u8; first_aligned + second_size];

    buffer[0..4].copy_from_slice(&(first_aligned as u32).to_le_bytes());
    buffer[4..8].copy_from_slice(&11u32.to_le_bytes());
    buffer[FILE_ID_FULL_DIRECTORY_INFORMATION_NAME_LENGTH_OFFSET
        ..FILE_ID_FULL_DIRECTORY_INFORMATION_NAME_LENGTH_OFFSET + 4]
        .copy_from_slice(&(first_name.len() as u32).to_le_bytes());
    buffer[FILE_ID_FULL_DIRECTORY_INFORMATION_FIXED_SIZE
        ..FILE_ID_FULL_DIRECTORY_INFORMATION_FIXED_SIZE + first_name.len()]
        .copy_from_slice(&first_name);

    let second = first_aligned;
    buffer[second + 4..second + 8].copy_from_slice(&22u32.to_le_bytes());
    buffer[second + FILE_ID_FULL_DIRECTORY_INFORMATION_NAME_LENGTH_OFFSET
        ..second + FILE_ID_FULL_DIRECTORY_INFORMATION_NAME_LENGTH_OFFSET + 4]
        .copy_from_slice(&(second_name.len() as u32).to_le_bytes());
    buffer[second + FILE_ID_FULL_DIRECTORY_INFORMATION_FIXED_SIZE
        ..second + FILE_ID_FULL_DIRECTORY_INFORMATION_FIXED_SIZE + second_name.len()]
        .copy_from_slice(&second_name);

    let entries = decode_file_id_full_directory_information(&buffer).unwrap();
    assert_eq!(entries.len(), 2);
    assert_eq!(entries[0].file_index, 11);
    assert_eq!(entries[0].name, "one.txt");
    assert_eq!(entries[1].file_index, 22);
    assert_eq!(entries[1].name, "two.mkv");
}

#[test]
fn rejects_unaligned_next_entry_offset() {
    let mut buffer = vec![0u8; 24];
    buffer[0..4].copy_from_slice(&13u32.to_le_bytes());
    assert!(decode_file_names_information(&buffer).is_err());
}

#[test]
fn rejects_overlapping_file_id_full_next_entry_offset() {
    let name = utf16("overlap.txt");
    let mut buffer = vec![0u8; 128];
    buffer[0..4].copy_from_slice(&80u32.to_le_bytes());
    buffer[FILE_ID_FULL_DIRECTORY_INFORMATION_NAME_LENGTH_OFFSET
        ..FILE_ID_FULL_DIRECTORY_INFORMATION_NAME_LENGTH_OFFSET + 4]
        .copy_from_slice(&(name.len() as u32).to_le_bytes());
    buffer[FILE_ID_FULL_DIRECTORY_INFORMATION_FIXED_SIZE
        ..FILE_ID_FULL_DIRECTORY_INFORMATION_FIXED_SIZE + name.len()]
        .copy_from_slice(&name);

    assert!(decode_file_id_full_directory_information(&buffer).is_err());
}

#[test]
fn broken_listings_are_told_apart() {
    assert!(decode_file_names_information(&[]).unwrap().is_empty());
    assert!(matches!(
        decode_file_names_information(&[0; 11]),
        Err(FsQueryError::InvalidData(
            "FileNamesInformation entry is shorter than 12 bytes"
        ))
    ));
    let mut odd = vec![0u8; 16];
    odd[8] = 3;
    assert!(matches!(
        decode_file_names_information(&odd),
        Err(FsQueryError::InvalidData(
            "FileNamesInformation FileNameLength is not UTF-16 aligned"
        ))
    ));
    odd[8] = 6;
    assert!(matches!(
        decode_file_names_information(&odd),
        Err(FsQueryError::InvalidData(
            "FileNamesInformation file name exceeds response buffer"
        ))
    ));
    // A lone surrogate.
    odd[8] = 2;
    odd[12] = 0x00;
    odd[13] = 0xD8;
    assert!(matches!(
        decode_file_names_information(&odd),
        Err(FsQueryError::InvalidUtf16)
    ));
    // A character outside the basic plane is two units.
    let name = utf16("\u{1F3AC}");
    let mut film = vec![0u8; 12];
    film[8] = name.len() as u8;
    film.extend_from_slice(&name);
    assert_eq!(
        decode_file_names_information(&film).unwrap()[0].name,
        "\u{1F3AC}"
    );
}

#[test]
fn query_errors_say_what_failed() {
    assert_eq!(
        FsQueryError::from(ClientError::Cancelled).to_text(),
        "SMB query failed: SMB operation cancelled"
    );
    assert_eq!(
        FsQueryError::InvalidData("x").to_text(),
        "invalid SMB filesystem query data: x"
    );
    assert_eq!(
        FsQueryError::InvalidUtf16.to_text(),
        "invalid UTF-16 file name in SMB directory response"
    );
    assert_ne!(FileKind::File, FileKind::Directory);
    assert_ne!(FileKind::Directory, FileKind::Other);
}
