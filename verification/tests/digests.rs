use hash_cracker::algorithm::{detect_hash_type, HashType};
use hash_cracker::digest::{
    digest_bytes, hash_password, matches_target, normalize_target, to_hex,
};

const MD5_PASSWORD: &str = "5f4dcc3b5aa765d61d8327deb882cf99";
const SHA1_PASSWORD: &str = "5baa61e4c9b93f3f0682250b6cf8331b7ee68fd8";
const SHA256_PASSWORD: &str = "5e884898da28047151d0e56f8dc6292773603d0d6aabbdd62a11ef721d1542d8";
const SHA512_PASSWORD: &str = "b109f3bbbc244eb82441917ed06d618b9008dd09b3befd1b5e07394c706a8bb980b1d7785e5976ec049b46df5f1326af5a2ea6d103fd07c95385ffab0cacbc86";

#[test]
fn detect_by_length() {
    assert_eq!(detect_hash_type(MD5_PASSWORD), Some(HashType::MD5));
    assert_eq!(detect_hash_type(SHA1_PASSWORD), Some(HashType::SHA1));
    assert_eq!(detect_hash_type(SHA256_PASSWORD), Some(HashType::SHA256));
    assert_eq!(detect_hash_type(SHA512_PASSWORD), Some(HashType::SHA512));
}

#[test]
fn detect_ignores_content() {
    assert_eq!(detect_hash_type(&"z".repeat(32)), Some(HashType::MD5));
    assert_eq!(detect_hash_type(&" ".repeat(40)), Some(HashType::SHA1));
    assert_eq!(detect_hash_type(&"!".repeat(64)), Some(HashType::SHA256));
    assert_eq!(detect_hash_type(&"G".repeat(128)), Some(HashType::SHA512));
}

#[test]
fn detect_rejects_other_lengths() {
    for n in 0..200usize {
        let expected = match n {
            32 => Some(HashType::MD5),
            40 => Some(HashType::SHA1),
            64 => Some(HashType::SHA256),
            128 => Some(HashType::SHA512),
            _ => None,
        };
        assert_eq!(detect_hash_type(&"a".repeat(n)), expected);
    }
    assert_eq!(detect_hash_type(""), None);
    assert_eq!(detect_hash_type(&"0".repeat(50)), None);
}

#[test]
fn detect_counts_bytes() {
    // sixteen two-byte letters are thirty-two bytes
    let text = "\u{e9}".repeat(16);
    assert_eq!(text.len(), 32);
    assert_eq!(detect_hash_type(&text), Some(HashType::MD5));
    assert_eq!(detect_hash_type(&"\u{e9}".repeat(32)), Some(HashType::SHA256));
}

#[test]
fn algorithm_names() {
    assert_eq!(HashType::MD5.name(), "MD5");
    assert_eq!(HashType::SHA1.name(), "SHA1");
    assert_eq!(HashType::SHA256.name(), "SHA256");
    assert_eq!(HashType::SHA512.name(), "SHA512");
}

#[test]
fn hash_password_known_values() {
    assert_eq!(hash_password("password", HashType::MD5), MD5_PASSWORD);
    assert_eq!(hash_password("password", HashType::SHA1), SHA1_PASSWORD);
    assert_eq!(hash_password("password", HashType::SHA256), SHA256_PASSWORD);
    assert_eq!(hash_password("password", HashType::SHA512), SHA512_PASSWORD);
}

#[test]
fn hash_password_of_empty_word() {
    assert_eq!(hash_password("", HashType::MD5), "d41d8cd98f00b204e9800998ecf8427e");
    assert_eq!(hash_password("", HashType::SHA1), "da39a3ee5e6b4b0d3255bfef95601890afd80709");
    assert_eq!(
        hash_password("", HashType::SHA256),
        "e3b0c44298fc1c149afbf4c8996fb92427ae41e4649b934ca495991b7852b855"
    );
    assert_eq!(
        hash_password("", HashType::SHA512),
        "cf83e1357eefb8bdf1542850d66d8007d620e4050b5715dc83f4a921d36ce9ce47d0d13c5d85f2b0ff8318d2877eec2f63b931bd47417a81a538327af927da3e"
    );
}

#[test]
fn hash_password_of_abc() {
    assert_eq!(hash_password("abc", HashType::MD5), "900150983cd24fb0d6963f7d28e17f72");
    assert_eq!(hash_password("abc", HashType::SHA1), "a9993e364706816aba3e25717850c26c9cd0d89d");
    assert_eq!(
        hash_password("abc", HashType::SHA256),
        "ba7816bf8f01cfea414140de5dae2223b00361a396177a9cb410ff61f20015ad"
    );
    assert_eq!(
        hash_password("abc", HashType::SHA512),
        "ddaf35a193617abacc417349ae20413112e6fa4e89a97ea20a9eeee64b55d39a2192992a274fc1a836ba3c23a3feebbd454d4423643ce80e2a9ac94fa54ca49f"
    );
}

#[test]
fn hash_password_hashes_utf8_bytes() {
    assert_eq!(
        hash_password("p\u{e4}ssw\u{f6}rd", HashType::MD5),
        "12841e4ba5e37d2fbfc78458c6714ade"
    );
}

#[test]
fn hash_password_is_deterministic() {
    let kinds = [HashType::MD5, HashType::SHA1, HashType::SHA256, HashType::SHA512];
    for kind in kinds {
        for word in ["", "a", "password", "correct horse battery staple"] {
            let first = hash_password(word, kind);
            let second = hash_password(word, kind);
            assert_eq!(first, second);
        }
    }
}

#[test]
fn digest_text_is_detected_as_its_algorithm() {
    let kinds = [HashType::MD5, HashType::SHA1, HashType::SHA256, HashType::SHA512];
    for kind in kinds {
        let text = hash_password("letmein", kind);
        assert_eq!(detect_hash_type(&text), Some(kind));
        assert!(text.bytes().all(|b| b.is_ascii_digit() || (b'a'..=b'f').contains(&b)));
    }
}

#[test]
fn digest_bytes_lengths_and_values() {
    assert_eq!(digest_bytes(b"password", HashType::MD5).len(), 16);
    assert_eq!(digest_bytes(b"password", HashType::SHA1).len(), 20);
    assert_eq!(digest_bytes(b"password", HashType::SHA256).len(), 32);
    assert_eq!(digest_bytes(b"password", HashType::SHA512).len(), 64);
    assert_eq!(
        digest_bytes(b"", HashType::MD5),
        vec![
            0xd4, 0x1d, 0x8c, 0xd9, 0x8f, 0x00, 0xb2, 0x04, 0xe9, 0x80, 0x09, 0x98, 0xec, 0xf8,
            0x42, 0x7e
        ]
    );
    assert_ne!(digest_bytes(b"password", HashType::MD5), b"password".to_vec());
}

#[test]
fn to_hex_exact() {
    assert_eq!(to_hex(&[]), "");
    assert_eq!(to_hex(&[0x00]), "00");
    assert_eq!(to_hex(&[0x0f]), "0f");
    assert_eq!(to_hex(&[0xf0]), "f0");
    assert_eq!(to_hex(&[0xff]), "ff");
    assert_eq!(to_hex(&[0x01, 0x23, 0x45, 0x67, 0x89, 0xab, 0xcd, 0xef]), "0123456789abcdef");
    assert_eq!(to_hex(&[0xde, 0xad, 0xbe, 0xef]), "deadbeef");
}

#[test]
fn to_hex_every_byte() {
    for b in 0..=255u8 {
        assert_eq!(to_hex(&[b]), format!("{:02x}", b));
    }
}

#[test]
fn normalize_target_lowers_case() {
    assert_eq!(normalize_target("5F4DCC3B5AA765D61D8327DEB882CF99"), MD5_PASSWORD);
    assert_eq!(normalize_target(MD5_PASSWORD), MD5_PASSWORD);
    assert_eq!(normalize_target("AbCdEf0123"), "abcdef0123");
}

#[test]
fn uppercase_target_matches() {
    let upper = MD5_PASSWORD.to_uppercase();
    assert!(matches_target("password", &upper, HashType::MD5));
    assert!(matches_target("password", MD5_PASSWORD, HashType::MD5));
    assert!(matches_target("password", "5F4dcc3b5aa765d61d8327deb882CF99", HashType::MD5));
    assert!(matches_target("password", &SHA256_PASSWORD.to_uppercase(), HashType::SHA256));
}

#[test]
fn other_words_do_not_match() {
    assert!(!matches_target("Password", MD5_PASSWORD, HashType::MD5));
    assert!(!matches_target("password ", MD5_PASSWORD, HashType::MD5));
    assert!(!matches_target("password", SHA1_PASSWORD, HashType::MD5));
    assert!(!matches_target("password", MD5_PASSWORD, HashType::SHA1));
}
