use clipboard_picker::fingerprint::{clipboard_fingerprint, fingerprint, simple_hash};

// 5381 in hexadecimal.
#[test]
fn fingerprint_of_empty_is_seed() {
    assert_eq!(simple_hash(""), "1505");
    assert_eq!(fingerprint(""), "1505");
}

// 5381 * 33 + 97 = 177670 = 0x2b606.
#[test]
fn fingerprint_of_single_letter() {
    assert_eq!(simple_hash("a"), "2b606");
    assert_eq!(fingerprint("a"), "2b606");
}

#[test]
fn fingerprint_is_deterministic() {
    let s = "some clipboard content\nwith two lines";
    assert_eq!(fingerprint(s), fingerprint(s));
    assert_eq!(simple_hash(s), simple_hash(s));
}

#[test]
fn fingerprint_collides_on_equal_prefixes() {
    let base = "x".repeat(1000);
    let s = format!("{}{}", base, "tail one");
    let t = format!("{}{}", base, "a different tail");
    assert_ne!(s, t);
    assert_eq!(fingerprint(&s), fingerprint(&t));
    assert_eq!(fingerprint(&s), fingerprint(&base));
}

#[test]
fn fingerprint_differs_within_prefix() {
    assert_ne!(fingerprint("hello"), fingerprint("world"));
}

#[test]
fn fingerprint_counts_characters_not_bytes() {
    // 1000 two-byte characters followed by a tail: the prefix keeps all
    // 1000 characters, so the tail still cannot matter.
    let base = "\u{e9}".repeat(1000);
    let s = format!("{}{}", base, "tail");
    assert_eq!(fingerprint(&s), fingerprint(&base));
    // 998 characters leave room for two more inside the prefix.
    let short = "\u{e9}".repeat(998);
    let u = format!("{}{}", short, "ab");
    let v = format!("{}{}", short, "ac");
    assert_ne!(fingerprint(&u), fingerprint(&v));
}

#[test]
fn clipboard_fingerprint_of_failed_read_is_empty_fingerprint() {
    assert_eq!(clipboard_fingerprint(None), "1505");
    assert_eq!(clipboard_fingerprint(Some(String::new())), "1505");
}

#[test]
fn clipboard_fingerprint_of_content() {
    assert_eq!(
        clipboard_fingerprint(Some("world".to_string())),
        fingerprint("world")
    );
}
