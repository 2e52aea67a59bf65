use pacquet_core::cafs::{content_path_from_hex, locate, locate_by_hex, FileType};
use std::path::PathBuf;

const HELLO_WORLD_HEX: &str = "309ecc489c12d6eb4cc40f50c902f2b4d0ed77ee511a7c7a9bcd3ca86d4cd86f989dd35bc5ff499670da34255b45b0cfd830e81f605dcf7dc5542e93ae9cd76f";

#[test]
fn create_content_path_from_hex() {
    assert_eq!(
        PathBuf::from(content_path_from_hex(
            FileType::NonExec,
            "1234567890abcdef1234567890abcdef12345678"
        )),
        PathBuf::from("12/34567890abcdef1234567890abcdef12345678")
    );
    assert_eq!(
        PathBuf::from(content_path_from_hex(
            FileType::Exec,
            "1234567890abcdef1234567890abcdef12345678"
        )),
        PathBuf::from("12/34567890abcdef1234567890abcdef12345678-exec")
    );
    assert_eq!(
        PathBuf::from(content_path_from_hex(
            FileType::Index,
            "1234567890abcdef1234567890abcdef12345678"
        )),
        PathBuf::from("12/34567890abcdef1234567890abcdef12345678-index.json")
    );
}

#[test]
fn content_path_of_the_shortest_digest() {
    assert_eq!(content_path_from_hex(FileType::NonExec, "ab"), "ab/");
    assert_eq!(content_path_from_hex(FileType::Exec, "abc"), "ab/c-exec");
}

#[test]
fn locate_hashes_the_buffer() {
    let location = locate("/store", &b"hello world".to_vec());
    assert_eq!(
        location.file_path,
        format!("/store/{}/{}", &HELLO_WORLD_HEX[..2], &HELLO_WORLD_HEX[2..])
    );
    assert_eq!(location.parent_dir, "/store/30");
}

#[test]
fn locate_agrees_with_ssri() {
    let buffer = b"console.log('hi')\n".to_vec();
    let hex = ssri::IntegrityOpts::new()
        .algorithm(ssri::Algorithm::Sha512)
        .chain(&buffer)
        .result()
        .to_hex()
        .1;
    assert_eq!(hex.len(), 128);
    assert_eq!(locate("store", &buffer), locate_by_hex("store", &hex));
    assert_eq!(
        locate("store", &buffer).file_path,
        "store/bc/a2fd6c2a764dcd465bd819d2e88911bfc5f4bdd8bbac7a78fb87ce9ceb35bfc4502ab8bc6a22cb4b7de188e939fec57cfed44732d7725e1a60f4c5ab0a9d7f"
    );
}

#[test]
fn identical_buffers_share_a_path() {
    let first = locate("/store/", &vec![1u8, 2, 3]);
    let second = locate("/store/", &vec![1u8, 2, 3]);
    let other = locate("/store/", &vec![1u8, 2, 4]);
    assert_eq!(first, second);
    assert_ne!(first.file_path, other.file_path);
    assert!(first.file_path.starts_with("/store/"));
    assert!(!first.file_path.starts_with("/store//"));
}

#[test]
fn locate_by_hex_joins_onto_the_store_dir() {
    let location = locate_by_hex("/var/store", "1234567890abcdef");
    assert_eq!(location.file_path, "/var/store/12/34567890abcdef");
    assert_eq!(location.parent_dir, "/var/store/12");
    let location = locate_by_hex("", "1234");
    assert_eq!(location.file_path, "12/34");
    assert_eq!(location.parent_dir, "12");
}
