use dragit::codec::{
    add_row, decimal_bytes, decode_answer, decode_discovery, decode_metadata, encode_answer,
    encode_discovery, encode_metadata, sanitize_name, Metadata, WireError,
};
use dragit::peer::{OperatingSystem, TransferType};

const HI_SHA1: &str = "55ca6286e3e4f4fba5d0448333fa99fc5a404a73";

fn meta(name: &str, size: u64, kind: TransferType) -> Metadata {
    Metadata { name: name.to_string(), hash: HI_SHA1.to_string(), size, transfer_type: kind }
}

#[test]
fn add_row_appends_a_newline() {
    assert_eq!(add_row("abc"), b"abc\n".to_vec());
    assert_eq!(add_row(""), b"\n".to_vec());
    assert_eq!(add_row("é"), vec![0xc3, 0xa9, b'\n']);
}

#[test]
fn decimal_bytes_writes_digits() {
    assert_eq!(decimal_bytes(0), b"0".to_vec());
    assert_eq!(decimal_bytes(3), b"3".to_vec());
    assert_eq!(decimal_bytes(17179869184), b"17179869184".to_vec());
    assert_eq!(decimal_bytes(u64::MAX), b"18446744073709551615".to_vec());
}

#[test]
fn metadata_has_the_wire_layout() {
    let bytes = encode_metadata(&meta("hello.txt", 3, TransferType::File));
    let mut expected = b"hello.txt\n".to_vec();
    expected.extend_from_slice(HI_SHA1.as_bytes());
    expected.extend_from_slice(b"\n3\n\x00");
    assert_eq!(bytes, expected);
    let dir = encode_metadata(&meta("d.zip", 10, TransferType::Directory));
    assert_eq!(*dir.last().unwrap(), 1);
}

#[test]
fn metadata_reads_back() {
    let m = meta("hello.txt", 3, TransferType::File);
    let mut bytes = encode_metadata(&m);
    let n = bytes.len();
    bytes.extend_from_slice(b"payload");
    let (back, used) = decode_metadata(&bytes).unwrap();
    assert_eq!(used, n);
    assert_eq!(back.name, "hello.txt");
    assert_eq!(back.hash, HI_SHA1);
    assert_eq!(back.size, 3);
    assert_eq!(back.transfer_type, TransferType::File);
}

#[test]
fn metadata_trims_trailing_blanks_and_sanitizes() {
    let bytes = b"../../etc/passwd \r\nabc\t\n12 \n\x01";
    let (m, used) = decode_metadata(bytes).unwrap();
    assert_eq!(used, bytes.len());
    assert_eq!(m.name, "passwd");
    assert_eq!(m.hash, "abc");
    assert_eq!(m.size, 12);
    assert_eq!(m.transfer_type, TransferType::Directory);
}

#[test]
fn metadata_errors() {
    assert_eq!(decode_metadata(b"").unwrap_err(), WireError::Incomplete);
    assert_eq!(decode_metadata(b"a\nb\n3\n").unwrap_err(), WireError::Incomplete);
    assert_eq!(decode_metadata(b"a\nb\n").unwrap_err(), WireError::Incomplete);
    assert_eq!(decode_metadata(b"a\nb\nx3\n\x00").unwrap_err(), WireError::InvalidSize);
    assert_eq!(decode_metadata(b"a\nb\n-3\n\x00").unwrap_err(), WireError::InvalidSize);
    assert_eq!(decode_metadata(b"a\nb\n\n\x00").unwrap_err(), WireError::InvalidSize);
    assert_eq!(decode_metadata(b"a\nb\n17179869184\n\x00").unwrap().0.size, 17179869184);
    assert_eq!(decode_metadata(b"a\nb\n17179869185\n\x00").unwrap_err(), WireError::SizeTooLarge);
    assert_eq!(decode_metadata(b"a\nb\n99999999999999999999999\n\x00").unwrap_err(), WireError::SizeTooLarge);
    assert_eq!(decode_metadata(b"a\nb\n3\n\x02").unwrap_err(), WireError::InvalidTransferType);
    assert_eq!(decode_metadata(b"a\xff\nb\n3\n\x00").unwrap_err(), WireError::InvalidUtf8);
    assert_eq!(decode_metadata(b"a\nb\xfe\n3\n\x00").unwrap_err(), WireError::InvalidUtf8);
}

#[test]
fn sanitize_keeps_the_base_name() {
    assert_eq!(sanitize_name("hello.txt", HI_SHA1), "hello.txt");
    assert_eq!(sanitize_name("/tmp/x/hello.txt", HI_SHA1), "hello.txt");
    assert_eq!(sanitize_name("C:\\Users\\me\\a.txt", HI_SHA1), "a.txt");
    assert_eq!(sanitize_name("dir/", HI_SHA1), format!("file_{}", HI_SHA1));
    assert_eq!(sanitize_name("", "ab/cd"), "file_cd");
    assert_eq!(sanitize_name("", ""), "file_");
    assert_eq!(sanitize_name("ünïcødé/näme", ""), "näme");
}

#[test]
fn sanitize_is_idempotent_and_clean() {
    for name in ["a/b/c", "", "/", "x\\y", "plain", "..", "a/", "é/ü"] {
        for hash in ["", "h", "p/q", HI_SHA1] {
            let once = sanitize_name(name, hash);
            assert_eq!(sanitize_name(&once, hash), once);
            assert!(!once.is_empty());
            assert!(!once.contains('/') && !once.contains('\\'));
        }
    }
}

#[test]
fn answer_round_trips() {
    let bytes = encode_answer(true, HI_SHA1);
    assert_eq!(bytes[0], 1);
    assert_eq!(decode_answer(&bytes).unwrap(), (true, HI_SHA1.to_string(), bytes.len()));
    let bytes = encode_answer(false, "h");
    assert_eq!(bytes, b"\x00h\n".to_vec());
    assert_eq!(decode_answer(&bytes).unwrap(), (false, "h".to_string(), 3));
}

#[test]
fn answer_errors() {
    assert_eq!(decode_answer(b"").unwrap_err(), WireError::Incomplete);
    assert_eq!(decode_answer(b"\x01abc").unwrap_err(), WireError::Incomplete);
    assert_eq!(decode_answer(b"\x02abc\n").unwrap_err(), WireError::InvalidAnswer);
    assert_eq!(decode_answer(b"\x01\xff\n").unwrap_err(), WireError::InvalidUtf8);
}

#[test]
fn discovery_round_trips() {
    let bytes = encode_discovery("host-1", OperatingSystem::Macos);
    assert_eq!(bytes, b"host-1\n\x02".to_vec());
    let (h, os, used) = decode_discovery(&bytes).unwrap();
    assert_eq!((h.as_str(), os, used), ("host-1", OperatingSystem::Macos, 8));
    assert_eq!(decode_discovery(b"h\n\x05").unwrap_err(), WireError::InvalidOs);
    assert_eq!(decode_discovery(b"h\n").unwrap_err(), WireError::Incomplete);
    assert_eq!(decode_discovery(b"\xc3\n\x00").unwrap_err(), WireError::InvalidUtf8);
}

#[test]
fn codes_of_the_enumerations() {
    for (os, b) in [
        (OperatingSystem::Linux, 0u8),
        (OperatingSystem::Windows, 1),
        (OperatingSystem::Macos, 2),
        (OperatingSystem::Other, 3),
        (OperatingSystem::Unknown, 4),
    ] {
        assert_eq!(os.to_byte(), b);
        assert_eq!(OperatingSystem::from_byte(b), Some(os));
    }
    assert_eq!(OperatingSystem::from_byte(5), None);
    assert_eq!(TransferType::from_byte(0), Some(TransferType::File));
    assert_eq!(TransferType::from_byte(1), Some(TransferType::Directory));
    assert_eq!(TransferType::from_byte(2), None);
    assert_eq!(TransferType::Directory.to_byte(), 1);
}
