use context_rag::hasher::{hash, render_digest};
use sha2::Digest;

#[test]
fn hash_of_known_texts() {
    assert_eq!(hash(""), "e3b0c44298fc1c149afbf4c8996fb92427ae41e4649b934ca495991b7852b855");
    assert_eq!(hash("abc"), "ba7816bf8f01cfea414140de5dae2223b00361a396177a9cb410ff61f20015ad");
}

#[test]
fn hash_is_the_digest_of_the_bytes_in_hex() {
    let text = "hello\nworld \u{e9}\u{4e16}";
    let digest = sha2::Sha256::digest(text.as_bytes());
    assert_eq!(hash(text), hex::encode(digest));
}

#[test]
fn hash_is_repeatable_and_tells_texts_apart() {
    assert_eq!(hash("hello\nworld"), hash("hello\nworld"));
    assert_ne!(hash("hello\nworld"), hash("hello\nworle"));
    assert_ne!(hash("ab"), hash("ba"));
    assert_ne!(hash("a"), hash("a "));
}

#[test]
fn hash_has_sixty_four_lowercase_hex_digits() {
    let h = hash("some content");
    assert_eq!(h.len(), 64);
    assert!(h.chars().all(|c| c.is_ascii_digit() || ('a'..='f').contains(&c)));
}

#[test]
fn digests_are_rendered_high_half_first() {
    assert_eq!(render_digest(&[]), "");
    assert_eq!(render_digest(&[0x00, 0x01, 0x0f, 0x10, 0xab, 0xff]), "00010f10abff");
    assert_eq!(render_digest("Hello world!".as_bytes()), "48656c6c6f20776f726c6421");
}
