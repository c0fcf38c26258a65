use aws_client_id_secret_hash::{compute, digest_to_base64, message_bytes, Config};

fn creds(client_id: &str, client_secret: &str) -> Config {
    Config { client_id: client_id.to_string(), client_secret: client_secret.to_string() }
}

#[test]
fn concrete_vector_secret_userclientid() {
    let r = compute("user", &creds("clientid", "secret"));
    assert_eq!(r, "E1KXMtDWZqk4xodyW0dfVQzUoSoWg7hMk0yc2ermw4M=");
}

#[test]
fn published_hmac_sha256_vector() {
    // HMAC_SHA256("key", "The quick brown fox jumps over the lazy dog")
    // = f7bc83f430538424b13298e6aa6fb143ef4d59a14946175997479dbc2d1a3cd8
    let r = compute("The quick brown fox ", &creds("jumps over the lazy dog", "key"));
    assert_eq!(r, "97yD9DBThCSxMpjmqm+xQ+9NWaFJRhdZl0edvC0aPNg=");
}

#[test]
fn empty_secret_is_a_valid_key() {
    let r = compute("user", &creds("clientid", ""));
    assert_eq!(r, "q8tLDnlltm9LusdErO+uEOC5JbDIQlE4JCZy8y1T5Nk=");
}

#[test]
fn all_inputs_empty() {
    let r = compute("", &creds("", ""));
    assert_eq!(r, "thNnmggU2ex3L5XXeMNfxf8Wl8STcVZTxscSFEKSxa0=");
}

#[test]
fn same_inputs_same_hash() {
    let a = compute("alice", &creds("app-1", "s3cr3t"));
    let b = compute("alice", &creds("app-1", "s3cr3t"));
    assert_eq!(a, b);
}

#[test]
fn digest_decodes_to_32_bytes() {
    for (u, id, sec) in [("user", "clientid", "secret"), ("", "", ""), ("ünï", "cödé", "a longer secret than the block of sixty-four bytes of sha-256 ....")] {
        let r = compute(u, &creds(id, sec));
        assert_eq!(r.len(), 44);
        assert!(r.ends_with('=') && !r.ends_with("=="));
        assert_eq!(base64::decode(&r).unwrap().len(), 32);
    }
}

#[test]
fn swapping_username_and_client_id_changes_hash() {
    let a = compute("user", &creds("clientid", "secret"));
    let b = compute("clientid", &creds("user", "secret"));
    assert_eq!(b, "mhNPDBbn4gSJHG1J4bHmAdEdi5AdYpmM0BqwhV/pTSM=");
    assert_ne!(a, b);
}

#[test]
fn message_is_username_then_client_id() {
    assert_eq!(message_bytes("user", "clientid"), b"userclientid".to_vec());
    assert_eq!(message_bytes("", ""), Vec::<u8>::new());
    assert_eq!(message_bytes("é", "x"), vec![0xc3, 0xa9, b'x']);
}

#[test]
fn digest_rendered_as_padded_base64() {
    assert_eq!(digest_to_base64(&[77, 97, 110]), "TWFu");
    assert_eq!(digest_to_base64(&[77, 97]), "TWE=");
    assert_eq!(digest_to_base64(&[77]), "TQ==");
    assert_eq!(digest_to_base64(&[251, 255]), "+/8=");
    assert_eq!(digest_to_base64(&[]), "");
}
