use tubemin::keys::{
    consumed_setup_owner, create_shortcut_setup_token, find_setup_token, find_verified_key, generate,
    generate_secret, new_secret_plaintext, secret_from_random_bytes, secret_from_uuids,
    setup_token_expires_at, ShortcutSetupOwner, StoredKey, StoredSetupToken, SETUP_TOKEN_TTL_SECS,
};

fn is_uuid_text(s: &str) -> bool {
    s.len() == 36
        && s.chars().enumerate().all(|(i, c)| {
            if i == 8 || i == 13 || i == 18 || i == 23 {
                c == '-'
            } else {
                c.is_ascii_digit() || ('a'..='f').contains(&c)
            }
        })
}

#[test]
fn fresh_secrets_are_two_random_uuids() {
    let a = new_secret_plaintext().unwrap();
    let b = new_secret_plaintext().unwrap();
    assert_eq!(a.len(), 73);
    assert!(is_uuid_text(&a[..36]));
    assert_eq!(&a[36..37], "-");
    assert!(is_uuid_text(&a[37..]));
    assert_ne!(a[..36].to_string(), a[37..].to_string());
    assert_ne!(a, b);
}

#[test]
fn generate_and_verify() {
    let secret = generate_secret().unwrap();
    assert_eq!(secret.plaintext.len(), 73);
    assert!(is_uuid_text(&secret.plaintext[..36]));
    assert!(is_uuid_text(&secret.plaintext[37..]));
    let other = generate_secret().unwrap();
    let keys = vec![
        StoredKey {
            id: "other".into(),
            key_hash: other.hash.clone(),
            label: None,
            owner_sub: None,
            owner_display: None,
        },
        StoredKey {
            id: "mine".into(),
            key_hash: secret.hash.clone(),
            label: Some("test key".into()),
            owner_sub: Some("user-1".into()),
            owner_display: Some("Walter".into()),
        },
    ];
    let found = find_verified_key(&secret.plaintext, keys).unwrap();
    assert_eq!(found.id, "mine");
    assert_eq!(found.label.as_deref(), Some("test key"));
    assert_eq!(found.owner_sub.as_deref(), Some("user-1"));
    assert_eq!(found.owner_display.as_deref(), Some("Walter"));
}

#[test]
fn wrong_key_rejected() {
    let secret = generate_secret().unwrap();
    let keys = vec![StoredKey {
        id: "admin".into(),
        key_hash: secret.hash,
        label: None,
        owner_sub: None,
        owner_display: None,
    }];
    assert!(find_verified_key("wrong-key", keys).is_none());
    let malformed = vec![StoredKey {
        id: "broken".into(),
        key_hash: "not a bcrypt hash".into(),
        label: None,
        owner_sub: None,
        owner_display: None,
    }];
    assert!(find_verified_key("wrong-key", malformed).is_none());
}

#[test]
fn shortcut_setup_token_can_be_consumed_only_once() {
    let secret = generate_secret().unwrap();
    let tokens = vec![StoredSetupToken {
        id: "tok".into(),
        token_hash: secret.hash,
        owner_sub: Some("user-1".into()),
        owner_display: "Walter".into(),
    }];
    let found = find_setup_token(&secret.plaintext, tokens);
    let owner = ShortcutSetupOwner { sub: Some("user-1".into()), display: "Walter".into() };
    assert_eq!(found, Some(("tok".to_string(), owner.clone())));
    assert_eq!(consumed_setup_owner(found.clone(), 1), Some(owner));
    // A concurrent request already deleted the row.
    assert_eq!(consumed_setup_owner(found, 0), None);
    assert_eq!(consumed_setup_owner(None, 1), None);
}

#[test]
fn setup_token_expires_after_ttl() {
    assert_eq!(SETUP_TOKEN_TTL_SECS, 600);
    assert_eq!(setup_token_expires_at(1_000), 1_600);
}

#[test]
fn setup_exchange_rejects_unknown_token() {
    let secret = generate_secret().unwrap();
    let tokens = vec![StoredSetupToken {
        id: "tok".into(),
        token_hash: secret.hash,
        owner_sub: None,
        owner_display: "Walter".into(),
    }];
    let found = find_setup_token("not-a-token", tokens);
    assert_eq!(found, None);
    assert_eq!(consumed_setup_owner(found, 0), None);
}

#[test]
fn generated_key_has_uuid_id_and_verifiable_secret() {
    let key = generate().unwrap();
    assert!(is_uuid_text(&key.id));
    assert!(key.plaintext.len() > 20);
    assert_eq!(key.plaintext.len(), 73);
    assert!(bcrypt::verify(&key.plaintext, &key.hash).unwrap());
    let keys = vec![StoredKey {
        id: key.id.clone(),
        key_hash: key.hash.clone(),
        label: Some("test key".into()),
        owner_sub: Some("user-1".into()),
        owner_display: Some("Walter".into()),
    }];
    let found = find_verified_key(&key.plaintext, keys).unwrap();
    assert_eq!(found.id, key.id);
    assert_eq!(found.label.as_deref(), Some("test key"));
    assert_eq!(found.owner_sub.as_deref(), Some("user-1"));
    assert_eq!(found.owner_display.as_deref(), Some("Walter"));
}

#[test]
fn setup_token_is_made_with_ten_minute_expiry() {
    let token = create_shortcut_setup_token(1_000).unwrap();
    assert!(is_uuid_text(&token.id));
    assert_eq!(token.plaintext.len(), 73);
    assert_eq!(token.created_at, 1_000);
    assert_eq!(token.expires_at, 1_600);
    assert!(bcrypt::verify(&token.plaintext, &token.hash).unwrap());
    let tokens = vec![StoredSetupToken {
        id: token.id.clone(),
        token_hash: token.hash.clone(),
        owner_sub: None,
        owner_display: "admin".into(),
    }];
    let (id, owner) = find_setup_token(&token.plaintext, tokens).unwrap();
    assert_eq!(id, token.id);
    assert_eq!(owner, ShortcutSetupOwner { sub: None, display: "admin".into() });
}

#[test]
fn secret_joins_two_uuid_texts() {
    assert_eq!(secret_from_uuids("a", "b"), "a-b");
    let zero = [0u8; 16];
    let ones = [0xffu8; 16];
    assert_eq!(
        secret_from_random_bytes(zero, ones),
        "00000000-0000-4000-8000-000000000000-ffffffff-ffff-4fff-bfff-ffffffffffff"
    );
    let first = [
        70, 235, 208, 238, 14, 109, 67, 201, 185, 13, 204, 195, 90, 145, 63, 62,
    ];
    let second = [1u8, 2, 3, 4, 5, 6, 7, 8, 9, 10, 11, 12, 13, 14, 15, 16];
    let expected = format!(
        "{}-{}",
        uuid::Builder::from_random_bytes(first).into_uuid(),
        uuid::Builder::from_random_bytes(second).into_uuid()
    );
    assert_eq!(secret_from_random_bytes(first, second), expected);
    assert_eq!(
        secret_from_random_bytes(second, first)[..36],
        "01020304-0506-4708-890a-0b0c0d0e0f10"[..]
    );
}
