use pwstash::persistence::tmp_path_for;
use std::path::Path;
use pwstash::encryption::{NONCE_LEN, SALT_LEN};
use pwstash::error::StashError;
use pwstash::persistence::{VaultFile, HEADER_LEN};

fn sample() -> VaultFile {
    VaultFile {
        salt: [7u8; SALT_LEN],
        nonce: [9u8; NONCE_LEN],
        ciphertext: vec![1, 2, 3, 4, 5, 6, 7, 8, 9, 10, 11, 12, 13, 14, 15, 16, 17],
    }
}

#[test]
fn encode_decode_roundtrip() {
    let file = sample();
    let decoded = VaultFile::decode(&file.encode()).unwrap();
    assert_eq!(file, decoded);
}

#[test]
fn truncated_file_is_corrupt() {
    assert!(matches!(
        VaultFile::decode(b"PWS"),
        Err(StashError::CorruptVault)
    ));
}

#[test]
fn bad_magic_is_corrupt() {
    let mut bytes = sample().encode();
    bytes[0] = b'X';
    assert!(matches!(
        VaultFile::decode(&bytes),
        Err(StashError::CorruptVault)
    ));
}

#[test]
fn encoded_layout_is_magic_salt_nonce_ciphertext() {
    let bytes = sample().encode();
    assert_eq!(&bytes[..4], b"PWS1");
    assert_eq!(&bytes[4..20], &[7u8; 16]);
    assert_eq!(&bytes[20..32], &[9u8; 12]);
    assert_eq!(&bytes[32..], &sample().ciphertext[..]);
    assert_eq!(HEADER_LEN, 32);
}

#[test]
fn shortest_accepted_file_holds_a_tag() {
    let mut file = sample();
    file.ciphertext = vec![0u8; 16];
    let bytes = file.encode();
    assert_eq!(bytes.len(), 48);
    assert_eq!(VaultFile::decode(&bytes).unwrap(), file);
    assert!(matches!(
        VaultFile::decode(&bytes[..47]),
        Err(StashError::CorruptVault)
    ));
}

#[test]
fn encode_of_decode_gives_back_the_bytes() {
    let mut bytes = b"PWS1".to_vec();
    bytes.extend((0u8..60).collect::<Vec<u8>>());
    let file = VaultFile::decode(&bytes).unwrap();
    assert_eq!(file.encode(), bytes);
}

#[test]
fn tmp_path_sits_beside_the_vault() {
    assert_eq!(tmp_path_for("vault.stash"), "vault.stash.tmp");
    assert_eq!(tmp_path_for("/home/u/vault.stash"), "/home/u/vault.stash.tmp");
    assert_eq!(tmp_path_for("dir/vault.stash/"), "dir/vault.stash.tmp");
    assert_eq!(tmp_path_for("/a"), "/a.tmp");
    assert_eq!(tmp_path_for("./b"), "./b.tmp");
    assert_eq!(tmp_path_for("a/./b"), "a/b.tmp");
    assert_eq!(tmp_path_for("/"), "/");
    assert_eq!(tmp_path_for(".."), "..");
    assert_eq!(tmp_path_for(""), "");
}

#[test]
fn tmp_path_matches_std_path() {
    for p in ["vault.stash", "/home/u/vault.stash", "dir/v.stash/", "/a", "./b", "/", "..", "a/..", "x//y", "a//./b"] {
        let path = Path::new(p);
        let expected = match path.file_name() {
            Some(name) => {
                let mut tmp_name = name.to_os_string();
                tmp_name.push(".tmp");
                path.with_file_name(tmp_name)
            }
            None => path.with_extension("tmp"),
        };
        assert_eq!(
            tmp_path_for(p),
            expected.to_str().unwrap(),
            "input {p:?}"
        );
    }
}
