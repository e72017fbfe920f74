use smb_io::probe::check_past_end;
use smb_io::probe::check_payload;
use smb_io::probe::check_range;
use smb_io::probe::check_read;
use smb_io::probe::check_reconnect_payloads;
use smb_io::probe::dash_to_empty;
use smb_io::probe::dialect_name;
use smb_io::probe::format_guid;
use smb_io::probe::hex;
use smb_io::probe::parse_hex;
use smb_io::probe::ReadKind;
use smb_io::wire::negotiate::Dialect;

#[test]
fn dialects_have_stable_display_names() {
    assert_eq!(dialect_name(Dialect::Smb311), "SMB 3.1.1");
    assert_eq!(dialect_name(Dialect::Smb202), "SMB 2.0.2");
}

#[test]
fn guid_formatter_is_fixed_width_hex() {
    assert_eq!(format_guid([0xAB; 16]), "abababababababababababababababab");
}

#[test]
fn hex_parser_accepts_mixed_case() {
    assert_eq!(parse_hex("00AaFf").unwrap(), vec![0x00, 0xaa, 0xff]);
}

#[test]
fn hex_parser_refuses_other_texts() {
    assert_eq!(
        parse_hex(""),
        Err("hex payload must contain an even, non-zero number of digits")
    );
    assert_eq!(
        parse_hex("abc"),
        Err("hex payload must contain an even, non-zero number of digits")
    );
    assert_eq!(parse_hex("0g"), Err("hex payload contains a non-hex digit"));
    assert_eq!(parse_hex("é"), Err("hex payload contains a non-hex digit"));
}

#[test]
fn hex_is_read_back_as_it_was_written() {
    let bytes: Vec<u8> = (0..=255).collect();
    assert_eq!(parse_hex(&hex(&bytes)).unwrap(), bytes);
}

#[test]
fn dash_is_anonymous_cli_sentinel() {
    assert_eq!(dash_to_empty("-".to_string()), "");
    assert_eq!(dash_to_empty("alice".to_string()), "alice");
    assert_eq!(dash_to_empty("--".to_string()), "--");
}

#[test]
fn verification_reports_what_differs() {
    assert!(check_payload(&[1]).is_ok());
    assert_eq!(
        check_payload(&[]).unwrap_err().to_text(),
        "verify expected hex payload must not be empty"
    );
    assert_eq!(
        check_reconnect_payloads(&[1], &[]).unwrap_err().to_text(),
        "reconnect expected payloads must not be empty"
    );
    assert!(check_range(16, 16, 32).is_ok());
    assert_eq!(
        check_range(16, 17, 32).unwrap_err().to_text(),
        "verification range 0x10..0x21 exceeds file length 0x20"
    );
    assert_eq!(
        check_range(u64::MAX, 1, 32).unwrap_err().to_text(),
        "verification offset overflow"
    );
    assert!(check_read(ReadKind::Direct, 0, &[1, 2], &[1, 2]).is_ok());
    assert_eq!(
        check_read(ReadKind::Pipelined, 0xABC, &[1, 2], &[1, 0xFE])
            .unwrap_err()
            .to_text(),
        "pipelined read mismatch at offset 0xabc: expected 0102, got 01fe"
    );
    assert_eq!(
        check_read(ReadKind::Engine, 0, &[1], &[])
            .unwrap_err()
            .to_text(),
        "Android engine read mismatch at offset 0x0: expected 01, got "
    );
    assert!(check_past_end(&[], &[]).is_ok());
    assert_eq!(
        check_past_end(&[1], &[]).unwrap_err().to_text(),
        "direct read at EOF returned data"
    );
    assert_eq!(
        check_past_end(&[], &[1]).unwrap_err().to_text(),
        "pipelined read at EOF returned data"
    );
}
