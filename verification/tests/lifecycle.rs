use identity_core::admin;
use identity_core::crypto::{generate_activation_code, generate_key, hash_key};
use identity_core::handlers::{
    activate, is_valid_email, register, validate, ActivateRequest, RegisterRequest,
    ValidateRequest,
};
use identity_core::store::{CredentialStore, Role, StoreError, SubscriptionStatus};

fn fresh_store() -> CredentialStore {
    CredentialStore::new()
}

#[test]
fn hashing_is_deterministic_and_stable() {
    let a = hash_key("sk_abcdefgh_0123456789abcdef0123456789abcdef");
    let b = hash_key("sk_abcdefgh_0123456789abcdef0123456789abcdef");
    assert_eq!(a, b);
    assert_eq!(a.len(), 64);
    // The hash is not the input handed back, and distinct inputs get
    // distinct hashes.
    assert_ne!(a, "sk_abcdefgh_0123456789abcdef0123456789abcdef");
    let c = hash_key("sk_abcdefgh_0123456789abcdef0123456789abcdee");
    assert_ne!(a, c);
    // Every character of a stored hash is a lowercase hex digit.
    for c in a.chars() {
        assert!(c.is_ascii_hexdigit() && !c.is_ascii_uppercase());
    }
    // Known digest of the empty string.
    assert_eq!(
        hash_key(""),
        "e3b0c44298fc1c149afbf4c8996fb92427ae41e4649b934ca495991b7852b855"
    );
}

#[test]
fn generated_key_has_the_documented_shape() {
    let k = generate_key();
    assert_eq!(k.full_key.len(), 44);
    assert!(k.full_key.starts_with("sk_"));
    assert_eq!(k.full_key.as_bytes()[11], b'_');
    assert_eq!(k.prefix, &k.full_key[..11]);
    assert_eq!(k.hash, hash_key(&k.full_key));
    for &b in k.full_key[3..11].as_bytes() {
        assert!(b.is_ascii_alphanumeric());
    }
    for &b in k.full_key[12..].as_bytes() {
        assert!(b.is_ascii_alphanumeric());
    }
}

#[test]
fn generated_code_has_the_documented_shape() {
    let c = generate_activation_code();
    assert_eq!(c.full_code.len(), 17);
    assert!(c.full_code.starts_with("ac_"));
    assert_eq!(c.full_code.as_bytes()[7], b'-');
    assert_eq!(c.full_code.as_bytes()[12], b'-');
    assert_eq!(c.prefix, &c.full_code[..7]);
    assert_eq!(c.hash, hash_key(&c.full_code));
}

#[test]
fn key_prefix_never_suffices_to_authenticate() {
    let mut store = fresh_store();
    let uid = admin::create_user(&mut store, "user@example.com".to_string(), Role::Customer, 10)
        .unwrap();
    let key = admin::create_key(&mut store, uid, 11).unwrap();
    assert_ne!(key.prefix, key.full_key);
    let with_full = validate(&store, &ValidateRequest { api_key: key.full_key.clone() });
    assert!(with_full.valid);
    let with_prefix = validate(&store, &ValidateRequest { api_key: key.prefix.clone() });
    assert!(!with_prefix.valid);
    assert!(with_prefix.user.is_none());
}

#[test]
fn validate_then_revoke_then_validate() {
    let mut store = fresh_store();
    let alice = admin::create_user(&mut store, "alice@x.com".to_string(), Role::Customer, 100)
        .unwrap();
    let key = admin::create_key(&mut store, alice, 101).unwrap();

    let ok = validate(&store, &ValidateRequest { api_key: key.full_key.clone() });
    assert!(ok.valid);
    let user = ok.user.unwrap();
    assert_eq!(user.id, alice);
    assert_eq!(user.email, "alice@x.com");
    assert_eq!(user.role, Role::Customer);
    assert_eq!(user.subscription_status, SubscriptionStatus::Active);
    assert!(ok.error.is_none());

    let revoked = admin::revoke_key(&mut store, &key.prefix, 102).unwrap();
    assert_eq!(revoked, 1);

    // The row still exists, yet the key never validates again.
    assert_eq!(store.keys.len(), 1);
    let after = validate(&store, &ValidateRequest { api_key: key.full_key.clone() });
    assert!(!after.valid);
    assert!(after.user.is_none());
    assert_eq!(after.error.as_deref(), Some("Invalid or revoked API key"));

    // A second revocation finds no active key.
    assert_eq!(
        admin::revoke_key(&mut store, &key.prefix, 103),
        Err(StoreError::NotFound)
    );
}

#[test]
fn revoke_hits_every_active_key_with_the_prefix() {
    let mut store = fresh_store();
    let uid = admin::create_user(&mut store, "u@example.com".to_string(), Role::Support, 1)
        .unwrap();
    let k1 = admin::create_key(&mut store, uid, 2).unwrap();
    // Force a second row with the same prefix through the plain store
    // operation.
    store
        .insert_api_key(hash_key("other-secret"), k1.prefix.clone(), uid, 3)
        .unwrap();
    let count = admin::revoke_key(&mut store, &k1.prefix, 4).unwrap();
    assert_eq!(count, 2);
}

#[test]
fn exchange_consumes_the_code_exactly_once() {
    let mut store = fresh_store();
    let uid = admin::create_user(&mut store, "bob@x.com".to_string(), Role::Customer, 5).unwrap();
    let code = admin::create_activation_code(&mut store, uid, 6).unwrap();
    assert_eq!(store.keys.len(), 0);

    let first = activate(
        &mut store,
        &ActivateRequest { activation_code: code.full_code.clone() },
        7,
    )
    .unwrap();
    assert!(first.success);
    let minted = first.api_key.unwrap();
    assert!(first.error.is_none());
    assert_eq!(store.keys.len(), 1);

    // The minted key validates and is bound to the code's owner.
    let v = validate(&store, &ValidateRequest { api_key: minted.clone() });
    assert!(v.valid);
    assert_eq!(v.user.unwrap().id, uid);

    // A second exchange of the same code fails and mints nothing.
    let second = activate(
        &mut store,
        &ActivateRequest { activation_code: code.full_code.clone() },
        8,
    )
    .unwrap();
    assert!(!second.success);
    assert!(second.api_key.is_none());
    assert_eq!(
        second.error.as_deref(),
        Some("Invalid or already used activation code")
    );
    assert_eq!(store.keys.len(), 1);
}

#[test]
fn unknown_code_is_rejected_like_a_used_one() {
    let mut store = fresh_store();
    let resp = activate(
        &mut store,
        &ActivateRequest { activation_code: "ac_zzzz-zzzz-zzzz".to_string() },
        9,
    )
    .unwrap();
    assert!(!resp.success);
    assert_eq!(
        resp.error.as_deref(),
        Some("Invalid or already used activation code")
    );
}

#[test]
fn new_issuance_supersedes_older_codes() {
    let mut store = fresh_store();
    let uid = admin::create_user(&mut store, "carol@x.com".to_string(), Role::Customer, 20)
        .unwrap();
    let old_code = admin::create_activation_code(&mut store, uid, 21).unwrap();
    let new_code = admin::create_activation_code(&mut store, uid, 22).unwrap();

    let stale = activate(
        &mut store,
        &ActivateRequest { activation_code: old_code.full_code.clone() },
        23,
    )
    .unwrap();
    assert!(!stale.success);
    assert_eq!(
        stale.error.as_deref(),
        Some("Invalid or already used activation code")
    );

    let fresh = activate(
        &mut store,
        &ActivateRequest { activation_code: new_code.full_code.clone() },
        24,
    )
    .unwrap();
    assert!(fresh.success);
}

#[test]
fn register_returns_one_fixed_response_shape() {
    let mut store = fresh_store();
    let expected = "If this email is valid, you will receive an activation code shortly";

    // Malformed address: same response, no side effects.
    let (r_bad, issued_bad) = register(
        &mut store,
        &RegisterRequest { email: "bad-email".to_string() },
        30,
    );
    assert!(r_bad.success);
    assert_eq!(r_bad.message, expected);
    assert!(issued_bad.is_none());
    assert_eq!(store.users.len(), 0);
    assert_eq!(store.codes.len(), 0);

    // New address: same response, user and code created.
    let (r_new, issued_new) = register(
        &mut store,
        &RegisterRequest { email: "new@user.tld".to_string() },
        31,
    );
    assert!(r_new.success);
    assert_eq!(r_new.message, expected);
    let issued_new = issued_new.unwrap();
    assert_eq!(issued_new.email, "new@user.tld");
    assert_eq!(store.users.len(), 1);
    assert_eq!(store.users[0].email, "new@user.tld");
    assert_eq!(store.users[0].role, Role::Customer);
    assert_eq!(
        store.users[0].subscription_status,
        SubscriptionStatus::Trial
    );
    assert_eq!(store.codes.len(), 1);

    // Existing address: same response, prior code superseded, new one issued.
    let (r_existing, issued_again) = register(
        &mut store,
        &RegisterRequest { email: "new@user.tld".to_string() },
        32,
    );
    assert!(r_existing.success);
    assert_eq!(r_existing.message, expected);
    let issued_again = issued_again.unwrap();
    assert_eq!(store.users.len(), 1);
    assert_eq!(store.codes.len(), 2);
    assert!(store.codes[0].used_at.is_some());
    assert!(store.codes[1].used_at.is_none());

    let stale = activate(
        &mut store,
        &ActivateRequest { activation_code: issued_new.full_code.clone() },
        33,
    )
    .unwrap();
    assert!(!stale.success);
    let live = activate(
        &mut store,
        &ActivateRequest { activation_code: issued_again.full_code.clone() },
        34,
    )
    .unwrap();
    assert!(live.success);
}

#[test]
fn register_then_activate_round_trip() {
    let mut store = fresh_store();
    let (resp, issued) = register(
        &mut store,
        &RegisterRequest { email: "bob@x.com".to_string() },
        40,
    );
    assert!(resp.success);
    let issued = issued.unwrap();

    let first = activate(
        &mut store,
        &ActivateRequest { activation_code: issued.full_code.clone() },
        41,
    )
    .unwrap();
    assert!(first.success);
    assert!(first.api_key.is_some());

    let second = activate(
        &mut store,
        &ActivateRequest { activation_code: issued.full_code.clone() },
        42,
    )
    .unwrap();
    assert!(!second.success);
    assert!(second.api_key.is_none());
}

#[test]
fn register_canonicalizes_the_address() {
    let mut store = fresh_store();
    let (_, issued) = register(
        &mut store,
        &RegisterRequest { email: "  Mixed.Case@Example.COM  ".to_string() },
        50,
    );
    let issued = issued.unwrap();
    assert_eq!(issued.email, "mixed.case@example.com");
    assert_eq!(store.users[0].email, "mixed.case@example.com");

    // Registering the same address in another spelling reuses the user.
    let (_, again) = register(
        &mut store,
        &RegisterRequest { email: "MIXED.CASE@example.com".to_string() },
        51,
    );
    assert!(again.is_some());
    assert_eq!(store.users.len(), 1);
}

#[test]
fn email_validation_cases() {
    assert!(is_valid_email("a@b.c"));
    assert!(is_valid_email(" a@b.c "));
    assert!(!is_valid_email(""));
    assert!(!is_valid_email("   "));
    assert!(!is_valid_email("bad-email"));
    assert!(!is_valid_email("@b.c"));
    assert!(!is_valid_email("a@"));
    assert!(!is_valid_email("a@b"));
    assert!(!is_valid_email("a@@b.c"));
    assert!(!is_valid_email("a@b@c.d"));
    assert!(is_valid_email("a.b@c.d.e"));

    // Trimming happens before the length check: 255 bytes of which the
    // last 250 are trailing spaces is acceptable only because of the trim.
    let padded = format!("a@b.c{}", " ".repeat(250));
    assert_eq!(padded.len(), 255);
    assert!(is_valid_email(&padded));

    // Exactly 254 bytes passes; 255 does not.
    let local = "a".repeat(250);
    let at_limit = format!("{}@b.c", local); // 250 + 1 + 3 = 254
    assert_eq!(at_limit.len(), 254);
    assert!(is_valid_email(&at_limit));
    let over_limit = format!("{}a@b.c", local);
    assert_eq!(over_limit.len(), 255);
    assert!(!is_valid_email(&over_limit));
}

#[test]
fn store_error_variants_surface_to_the_operator() {
    let mut store = fresh_store();
    admin::create_user(&mut store, "dup@x.com".to_string(), Role::Admin, 60).unwrap();
    assert_eq!(
        admin::create_user(&mut store, "dup@x.com".to_string(), Role::Admin, 61),
        Err(StoreError::Conflict)
    );
    assert!(matches!(
        admin::create_key(&mut store, 99, 62),
        Err(StoreError::NotFound)
    ));
    assert!(matches!(
        admin::create_activation_code(&mut store, 99, 63),
        Err(StoreError::NotFound)
    ));
    assert!(matches!(
        store.insert_api_key(hash_key("x"), "sk_x".to_string(), 0, 64),
        Err(StoreError::NotFound)
    ));
    // A duplicated hash is a conflict.
    store
        .insert_api_key(hash_key("x"), "sk_x".to_string(), 1, 65)
        .unwrap();
    assert!(matches!(
        store.insert_api_key(hash_key("x"), "sk_x".to_string(), 1, 66),
        Err(StoreError::Conflict)
    ));
}

#[test]
fn role_and_status_names_round_trip() {
    for role in [Role::Admin, Role::Support, Role::Customer] {
        assert_eq!(Role::from_str(role.as_str()), Some(role));
    }
    assert_eq!(Role::from_str("root"), None);
    for status in [
        SubscriptionStatus::Active,
        SubscriptionStatus::Inactive,
        SubscriptionStatus::Trial,
    ] {
        assert_eq!(
            SubscriptionStatus::from_str(status.as_str()),
            Some(status)
        );
    }
    assert_eq!(SubscriptionStatus::from_str("expired"), None);
}
