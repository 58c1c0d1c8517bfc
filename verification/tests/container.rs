use arc_vault::arc::{Archive, Entry, BLOCK_OFFSET, HEADER_SIZE};
use arc_vault::compressor::compress_data;
use arc_vault::error::{ArchiveError, FormatError};
use arc_vault::kdf::derive_key;
use arc_vault::stream::apply_keystream;

const ONE_RECORD: &[u8] = br#"[{"id":1,"username":"alice","service":"github","password":"s3cret"}]"#;

const FOREIGN_IMAGE: [u8; 100] = [
    97, 114, 99, 49, 46, 48, 0, 1, 2, 3, 4, 5, 6, 7, 8, 9, 10, 11, 12, 13, 14, 15, 100, 101, 102,
    103, 104, 105, 106, 107, 226, 107, 69, 223, 129, 124, 150, 198, 209, 46, 185, 251, 253, 240,
    113, 210, 38, 197, 224, 11, 141, 194, 216, 227, 252, 198, 56, 39, 147, 229, 72, 144, 88, 143,
    107, 93, 92, 104, 131, 74, 224, 111, 162, 149, 72, 149, 116, 238, 149, 116, 59, 122, 204, 11,
    142, 221, 222, 210, 124, 147, 182, 194, 102, 166, 100, 50, 21, 28, 82, 108,
];

fn salt() -> Vec<u8> {
    (0u8..16).collect()
}

fn nonce() -> Vec<u8> {
    (100u8..108).collect()
}

fn invalid_header() -> Result<Vec<u8>, ArchiveError> {
    Err(ArchiveError::Format(FormatError::InvalidHeader))
}

#[test]
fn new_archive_has_no_entries() {
    let archive = Archive::new();
    assert!(archive.entries.is_empty());
    assert!(archive.entries().is_empty());
}

#[test]
fn add_entry_appends_in_order() {
    let mut archive = Archive::new();
    archive.add_entry(Entry {
        id: 1,
        username: "alice".to_string(),
        service: "github".to_string(),
        password: "s3cret".to_string(),
    });
    archive.add_entry(Entry {
        id: 5,
        username: String::new(),
        service: "caf\u{e9}".to_string(),
        password: String::new(),
    });
    assert_eq!(archive.entries.len(), 2);
    assert_eq!(archive.entries[0].id, 1);
    assert_eq!(archive.entries[0].username, "alice");
    assert_eq!(archive.entries[0].service, "github");
    assert_eq!(archive.entries[0].password, "s3cret");
    assert_eq!(archive.entries[1].id, 5);
    assert_eq!(archive.entries[1].service, "caf\u{e9}");
    assert_eq!(archive.entries().len(), 2);
}

#[test]
fn layout_constants() {
    assert_eq!(HEADER_SIZE, 6);
    assert_eq!(BLOCK_OFFSET, 22);
}

#[test]
fn save_with_lays_out_header_salt_nonce_and_ciphertext() {
    let image = Archive::new().save_with(ONE_RECORD, "correct horse", &salt(), &nonce());
    assert_eq!(&image[..6], b"arc1.0");
    assert_eq!(image[6..22], salt()[..]);
    assert_eq!(image[22..30], nonce()[..]);
    let key = derive_key("correct horse", &salt());
    let expected = apply_keystream(&key, &nonce(), &compress_data(ONE_RECORD));
    assert_eq!(image[30..], expected[..]);
}

#[test]
fn save_with_is_deterministic() {
    let a = Archive::new().save_with(ONE_RECORD, "correct horse", &salt(), &nonce());
    let b = Archive::new().save_with(ONE_RECORD, "correct horse", &salt(), &nonce());
    assert_eq!(a, b);
}

#[test]
fn save_with_does_not_depend_on_the_entries_in_memory() {
    let mut archive = Archive::new();
    archive.add_entry(Entry {
        id: 1,
        username: "alice".to_string(),
        service: "github".to_string(),
        password: "s3cret".to_string(),
    });
    let a = archive.save_with(ONE_RECORD, "correct horse", &salt(), &nonce());
    let b = Archive::new().save_with(ONE_RECORD, "correct horse", &salt(), &nonce());
    assert_eq!(a, b);
}

#[test]
fn load_returns_what_save_with_was_given() {
    let image = Archive::new().save_with(ONE_RECORD, "correct horse", &salt(), &nonce());
    assert_eq!(Archive::load(&image, "correct horse"), Ok(ONE_RECORD.to_vec()));
}

#[test]
fn load_returns_what_save_was_given() {
    let image = Archive::new().save(ONE_RECORD, "correct horse");
    assert!(image.len() > 30);
    assert_eq!(&image[..6], b"arc1.0");
    assert_eq!(Archive::load(&image, "correct horse"), Ok(ONE_RECORD.to_vec()));
}

#[test]
fn round_trip_of_an_empty_list() {
    let image = Archive::new().save(b"[]", "pw");
    assert_eq!(Archive::load(&image, "pw"), Ok(b"[]".to_vec()));
}

#[test]
fn round_trip_of_an_empty_payload() {
    let image = Archive::new().save(&[], "pw");
    assert_eq!(Archive::load(&image, "pw"), Ok(Vec::new()));
}

#[test]
fn round_trip_of_empty_and_non_ascii_texts() {
    let payload = "[{\"id\":4294967295,\"username\":\"\",\"service\":\"caf\u{e9}\",\"password\":\"\u{5bc6}\u{7801}\"}]";
    let image = Archive::new().save(payload.as_bytes(), "p\u{e4}ss");
    assert_eq!(Archive::load(&image, "p\u{e4}ss"), Ok(payload.as_bytes().to_vec()));
}

#[test]
fn round_trip_under_the_empty_passphrase() {
    let image = Archive::new().save(ONE_RECORD, "");
    assert_eq!(Archive::load(&image, ""), Ok(ONE_RECORD.to_vec()));
}

#[test]
fn round_trip_of_a_large_payload() {
    let payload: Vec<u8> = (0..200_000u32).map(|i| (i % 13) as u8 + b'a').collect();
    let image = Archive::new().save(&payload, "pw");
    assert!(image.len() < payload.len());
    assert_eq!(Archive::load(&image, "pw"), Ok(payload));
}

#[test]
fn load_reads_a_file_of_another_writer() {
    assert_eq!(Archive::load(&FOREIGN_IMAGE, "correct horse"), Ok(ONE_RECORD.to_vec()));
}

#[test]
fn scenario_alice_loads_back_as_the_same_record() {
    let image = Archive::new().save(ONE_RECORD, "correct horse");
    let payload = Archive::load(&image, "correct horse").unwrap();
    let parsed: serde_json::Value = serde_json::from_slice(&payload).unwrap();
    let list = parsed.as_array().unwrap();
    assert_eq!(list.len(), 1);
    assert_eq!(list[0].get("id").and_then(|v| v.as_u64()), Some(1));
    assert_eq!(list[0].get("username").and_then(|v| v.as_str()), Some("alice"));
    assert_eq!(list[0].get("service").and_then(|v| v.as_str()), Some("github"));
    assert_eq!(list[0].get("password").and_then(|v| v.as_str()), Some("s3cret"));
}

#[test]
fn scenario_alice_with_the_wrong_passphrase_is_an_error() {
    let image = Archive::new().save(ONE_RECORD, "correct horse");
    let r = Archive::load(&image, "wrong");
    assert!(matches!(r, Err(ArchiveError::Format(_))));
}

#[test]
fn wrong_passphrase_fails_closed() {
    let image = Archive::new().save_with(ONE_RECORD, "passphrase A", &salt(), &nonce());
    assert_eq!(
        Archive::load(&image, "passphrase B"),
        Err(ArchiveError::Format(FormatError::InvalidCompressedData))
    );
    assert_eq!(Archive::load(&image, "passphrase A"), Ok(ONE_RECORD.to_vec()));
}

#[test]
fn header_of_another_magic_is_rejected() {
    let mut image = Archive::new().save_with(ONE_RECORD, "pw", &salt(), &nonce());
    image[0] = b'A';
    assert_eq!(Archive::load(&image, "pw"), invalid_header());
}

#[test]
fn header_of_another_version_is_rejected() {
    let mut image = Archive::new().save_with(ONE_RECORD, "pw", &salt(), &nonce());
    image[5] = b'1';
    assert_eq!(Archive::load(&image, "pw"), invalid_header());
    image[5] = b'0';
    image[3] = b'2';
    assert_eq!(Archive::load(&image, "pw"), invalid_header());
}

#[test]
fn each_byte_of_the_header_is_checked() {
    let good = Archive::new().save_with(ONE_RECORD, "pw", &salt(), &nonce());
    for i in 0..6 {
        let mut image = good.clone();
        image[i] ^= 0x20;
        assert_eq!(Archive::load(&image, "pw"), invalid_header());
    }
}

#[test]
fn a_wrong_header_is_rejected_whatever_follows() {
    assert_eq!(Archive::load(b"zip1.0", "pw"), invalid_header());
    assert_eq!(Archive::load(b"arc2.0 and more bytes than a salt and a nonce", "pw"), invalid_header());
}

#[test]
fn a_file_shorter_than_the_header_is_rejected() {
    assert_eq!(Archive::load(&[], "pw"), invalid_header());
    assert_eq!(Archive::load(b"arc", "pw"), invalid_header());
    assert_eq!(Archive::load(b"arc1.", "pw"), invalid_header());
}

#[test]
fn a_file_that_ends_inside_the_salt_is_a_short_read() {
    let image = Archive::new().save_with(ONE_RECORD, "pw", &salt(), &nonce());
    assert_eq!(Archive::load(&image[..6], "pw"), Err(ArchiveError::Io));
    assert_eq!(Archive::load(&image[..21], "pw"), Err(ArchiveError::Io));
}

#[test]
fn a_file_of_header_and_salt_has_no_encrypted_data() {
    let image = Archive::new().save_with(ONE_RECORD, "pw", &salt(), &nonce());
    let expected = Err(ArchiveError::Format(FormatError::InvalidEncryptedData));
    assert_eq!(Archive::load(&image[..22], "pw"), expected);
    assert_eq!(Archive::load(&image[..29], "pw"), expected);
}

#[test]
fn a_file_that_ends_after_the_nonce_has_no_payload() {
    let image = Archive::new().save_with(ONE_RECORD, "pw", &salt(), &nonce());
    assert_eq!(
        Archive::load(&image[..30], "pw"),
        Err(ArchiveError::Format(FormatError::InvalidCompressedData))
    );
}

#[test]
fn every_truncation_is_an_error() {
    let image = Archive::new().save_with(ONE_RECORD, "pw", &salt(), &nonce());
    let mut lengths: Vec<usize> = (0..=22).collect();
    lengths.extend([29, 30, 31, image.len() / 2, image.len() - 1]);
    for n in lengths {
        let r = Archive::load(&image[..n], "pw");
        assert!(matches!(r, Err(ArchiveError::Io) | Err(ArchiveError::Format(_))));
    }
}

#[test]
fn a_flipped_ciphertext_bit_is_caught_by_decompression() {
    let mut image = Archive::new().save_with(ONE_RECORD, "pw", &salt(), &nonce());
    image[40] ^= 0x01;
    assert_eq!(
        Archive::load(&image, "pw"),
        Err(ArchiveError::Format(FormatError::InvalidCompressedData))
    );
}

#[test]
fn two_saves_differ_and_both_load_back() {
    let archive = Archive::new();
    let a = archive.save(ONE_RECORD, "correct horse");
    let b = archive.save(ONE_RECORD, "correct horse");
    assert_ne!(a[6..22], b[6..22]);
    assert_ne!(a[22..30], b[22..30]);
    assert_ne!(a[30..], b[30..]);
    assert_eq!(a.len(), b.len());
    assert_eq!(Archive::load(&a, "correct horse"), Ok(ONE_RECORD.to_vec()));
    assert_eq!(Archive::load(&b, "correct horse"), Ok(ONE_RECORD.to_vec()));
}

#[test]
fn another_salt_or_nonce_gives_another_file() {
    let archive = Archive::new();
    let base = archive.save_with(ONE_RECORD, "pw", &salt(), &nonce());
    let other_salt = archive.save_with(ONE_RECORD, "pw", &[9u8; 16], &nonce());
    let other_nonce = archive.save_with(ONE_RECORD, "pw", &salt(), &[9u8; 8]);
    assert_ne!(base, other_salt);
    assert_ne!(base, other_nonce);
    assert_ne!(base[30..], other_salt[30..]);
    assert_ne!(base[30..], other_nonce[30..]);
}
