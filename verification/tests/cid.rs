use availability_oracle::cid::{bytes32_to_cid_v0, Cid};

const QM: &str = "QmWATWQ7fVPP2EFGu71UkfnqhYXDYH566qy47CnJDgvs8u";

#[test]
fn cid_v0_of_zero_digest_has_multihash_header() {
    let cid = bytes32_to_cid_v0([0u8; 32]);
    assert_eq!(cid.bytes.len(), 34);
    assert_eq!(cid.bytes[0], 0x12);
    assert_eq!(cid.bytes[1], 0x20);
    assert!(cid.bytes[2..].iter().all(|b| *b == 0));
}

#[test]
fn cid_v0_text_is_base58_with_qm_prefix() {
    let mut id = [0u8; 32];
    for (i, b) in id.iter_mut().enumerate() {
        *b = i as u8;
    }
    let text = bytes32_to_cid_v0(id).to_text();
    assert_eq!(text.len(), 46);
    assert!(text.starts_with("Qm"));
}

#[test]
fn parse_then_print_gives_the_text_back() {
    let cid = Cid::parse(QM).expect("a version 0 identifier");
    assert_eq!(cid.bytes.len(), 34);
    assert_eq!(&cid.bytes[..2], &[0x12, 0x20]);
    assert_eq!(cid.to_text(), QM);
}

#[test]
fn parse_refuses_what_is_no_identifier() {
    assert_eq!(Cid::parse("not a cid"), None);
    assert_eq!(Cid::parse(""), None);
}

#[test]
fn text_of_bytes_that_are_no_identifier_is_empty() {
    let cid = Cid { bytes: vec![1, 2, 3] };
    assert_eq!(cid.to_text(), "");
}

#[test]
fn equal_bytes_make_equal_identifiers() {
    let a = bytes32_to_cid_v0([7u8; 32]);
    let b = bytes32_to_cid_v0([7u8; 32]);
    let c = bytes32_to_cid_v0([8u8; 32]);
    assert_eq!(a, b);
    assert_ne!(a, c);
    assert_eq!(a.clone(), a);
}

#[test]
fn version_0_identifier_with_another_multihash_keeps_its_text() {
    let text = format!("f00701210{}", "ab".repeat(16));
    let outside = text.parse::<tiny_cid::Cid>().expect("read by the outside crate");
    let cid = Cid::parse(&text).expect("read by the library");
    let mut bytes = vec![0x00, 0x70, 0x12, 0x10];
    bytes.extend_from_slice(&[0xab; 16]);
    assert_eq!(cid.bytes, bytes);
    assert_eq!(cid.to_text(), outside.to_string());
    assert!(!cid.to_text().is_empty());
}

#[test]
fn version_1_identifier_is_held_as_it_is_written() {
    let text = format!("f01551220{}", "cd".repeat(32));
    let outside = text.parse::<tiny_cid::Cid>().expect("read by the outside crate");
    let cid = Cid::parse(&text).expect("read by the library");
    assert_eq!(cid.bytes, outside.to_bytes());
    assert_eq!(cid.to_text(), outside.to_string());
}
