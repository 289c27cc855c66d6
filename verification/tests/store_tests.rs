use korgi_beats::beats_json::{beats_from_json, beats_to_json};
use korgi_beats::tokens::ApiTokenRepository;

#[test]
fn beats_are_stored_as_compact_json() {
    assert_eq!(beats_to_json(&[120, 480, 960]), "[120,480,960]");
    assert_eq!(beats_to_json(&[]), "[]");
    assert_eq!(beats_to_json(&[0, 18446744073709551615]), "[0,18446744073709551615]");
}

#[test]
fn stored_beats_read_back() {
    let text = beats_to_json(&[5, 10, 2500]);
    assert_eq!(beats_from_json(Some(text.as_str())), Some(vec![5, 10, 2500]));
    assert_eq!(beats_from_json(Some(" [1, 2] ")), Some(vec![1, 2]));
}

#[test]
fn unreadable_or_missing_beats() {
    assert_eq!(beats_from_json(None), None);
    assert_eq!(beats_from_json(Some("oops")), None);
    assert_eq!(beats_from_json(Some("[-1]")), None);
    assert_eq!(beats_from_json(Some("[1.5]")), None);
}

#[test]
fn token_hash_is_hex_sha256() {
    assert_eq!(
        ApiTokenRepository::hash_token("abc"),
        "ba7816bf8f01cfea414140de5dae2223b00361a396177a9cb410ff61f20015ad"
    );
    assert_eq!(
        ApiTokenRepository::hash_token(""),
        "e3b0c44298fc1c149afbf4c8996fb92427ae41e4649b934ca495991b7852b855"
    );
}

#[test]
fn token_hash_is_deterministic_and_64_chars() {
    let a = ApiTokenRepository::hash_token("kb_live_0123456789");
    let b = ApiTokenRepository::hash_token("kb_live_0123456789");
    assert_eq!(a, b);
    assert_eq!(a.len(), 64);
    assert_ne!(a, ApiTokenRepository::hash_token("kb_live_0123456788"));
}
