use ghost_time::matter::MatterWrite;
use ghost_time::summary::MatterInput;
use ghost_time::vault::{generate_key_256bit, idle_column, key_hex, key_pragma};

#[test]
fn keys_are_64_hex_digits() {
    let k = generate_key_256bit();
    assert_eq!(k.len(), 64);
    assert!(k.chars().all(|c| c.is_ascii_digit() || ('a'..='f').contains(&c)));
    assert_ne!(k, generate_key_256bit());
}

#[test]
fn pragma_text() {
    assert_eq!(key_pragma("abc"), "PRAGMA key='abc'; PRAGMA cipher_page_size=4096;");
}

#[test]
fn idle_column_values() {
    assert_eq!(idle_column(true), 1);
    assert_eq!(idle_column(false), 0);
}

fn input(id: Option<i64>) -> MatterInput {
    MatterInput {
        id,
        code: "M-1".to_string(),
        client_name: "Acme".to_string(),
        keywords: vec!["a\"b".to_string(), "c".to_string()],
        rate_cents: 30_000,
    }
}

#[test]
fn matter_with_id_is_updated() {
    let w = MatterWrite::for_matter(input(Some(7))).unwrap();
    match &w {
        MatterWrite::Update { id, code, keywords_json, rate_cents, .. } => {
            assert_eq!(*id, 7);
            assert_eq!(code, "M-1");
            assert_eq!(keywords_json, "[\"a\\\"b\",\"c\"]");
            assert_eq!(*rate_cents, 30_000);
        }
        _ => panic!("expected an update"),
    }
    assert_eq!(w.saved_id(99), 7);
}

#[test]
fn matter_without_id_is_inserted() {
    let w = MatterWrite::for_matter(input(None)).unwrap();
    match &w {
        MatterWrite::Insert { client_name, keywords_json, .. } => {
            assert_eq!(client_name, "Acme");
            assert_eq!(keywords_json, "[\"a\\\"b\",\"c\"]");
        }
        _ => panic!("expected an insert"),
    }
    assert_eq!(w.saved_id(99), 99);
}

#[test]
fn key_text_of_bytes() {
    let mut bytes = [0u8; 32];
    bytes[0] = 0xab;
    bytes[1] = 0x05;
    bytes[31] = 0xf0;
    let k = key_hex(&bytes);
    assert_eq!(k.len(), 64);
    assert!(k.starts_with("ab05"));
    assert!(k.ends_with("00f0"));
    assert_eq!(&k[4..62], "0".repeat(58));
}
