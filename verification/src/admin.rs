//! The administrative operations exposed to the operator's command surface.
//! Unlike the network-facing operations, these surface the precise error;
//! argument parsing and printing stay outside the library.

use vstd::prelude::*;

verus! {

use crate::crypto::{
    activation_code_prefix_of,
    activation_code_wf,
    api_key_prefix_of,
    api_key_wf,
    generate_key,
    sha256_hex,
    GeneratedActivationCode,
    GeneratedKey,
};
use crate::handlers::issue_activation_code;
use crate::store::{
    count_active_with_prefix,
    has_email,
    has_key_hash,
    lemma_count_active_pos,
    revoked_key,
    table_has_room,
    ApiKey,
    CredentialStore,
    Role,
    StoreError,
    SubscriptionStatus,
    User,
};

/// Provisions a user with the given role and an active subscription; fails
/// with `Conflict` exactly when the email is already taken.
pub fn create_user(store: &mut CredentialStore, email: String, role: Role, now: i64) -> (r: Result<
    i64,
    StoreError,
>)
    requires
        old(store).well_formed(),
    ensures
        final(store).well_formed(),
        final(store).keys@ == old(store).keys@,
        final(store).codes@ == old(store).codes@,
        match r {
            Ok(id) => {
                &&& !has_email(old(store).users@, email@)
                &&& table_has_room(old(store).users@.len())
                &&& id == old(store).users@.len() + 1
                &&& final(store).users@ =~= old(store).users@.push(
                    (User {
                        id,
                        email,
                        role,
                        subscription_status: SubscriptionStatus::Active,
                        created_at: now,
                    }),
                )
            },
            Err(StoreError::Conflict) => {
                &&& has_email(old(store).users@, email@)
                &&& final(store).users@ == old(store).users@
            },
            Err(StoreError::Internal) => {
                &&& !has_email(old(store).users@, email@)
                &&& !table_has_room(old(store).users@.len())
                &&& final(store).users@ == old(store).users@
            },
            Err(StoreError::NotFound) => false,
        },
{
    store.create_user(email, role, SubscriptionStatus::Active, now)
}

/// Mints an API key for an existing user: generates the secret and persists
/// only its hash and prefix. The full secret in the result is shown once and
/// never retrievable again. Fails with `NotFound` exactly when the user does
/// not exist; on any failure the store is untouched.
pub fn create_key(store: &mut CredentialStore, user_id: i64, now: i64) -> (r: Result<
    GeneratedKey,
    StoreError,
>)
    requires
        old(store).well_formed(),
    ensures
        final(store).well_formed(),
        final(store).users@ == old(store).users@,
        final(store).codes@ == old(store).codes@,
        match r {
            Ok(k) => {
                &&& 1 <= user_id <= old(store).users@.len()
                &&& api_key_wf(k.full_key@)
                &&& k.hash@ == sha256_hex(k.full_key@)
                &&& k.hash@.len() == 64
                &&& k.hash@ != k.full_key@
                &&& k.prefix@ == api_key_prefix_of(k.full_key@)
                &&& !has_key_hash(old(store).keys@, k.hash@)
                &&& final(store).keys@ =~= old(store).keys@.push(
                    (ApiKey {
                        id: (old(store).keys@.len() + 1) as i64,
                        key_hash: k.hash,
                        key_prefix: k.prefix,
                        user_id,
                        created_at: now,
                        revoked_at: None,
                    }),
                )
            },
            Err(StoreError::NotFound) => {
                &&& !(1 <= user_id <= old(store).users@.len())
                &&& *final(store) == *old(store)
            },
            Err(StoreError::Conflict) => {
                &&& 1 <= user_id <= old(store).users@.len()
                &&& old(store).keys@.len() > 0
                &&& *final(store) == *old(store)
            },
            Err(StoreError::Internal) => {
                &&& 1 <= user_id <= old(store).users@.len()
                &&& !table_has_room(old(store).keys@.len())
                &&& *final(store) == *old(store)
            },
        },
{
    if user_id < 1 || user_id as u64 > store.users.len() as u64 {
        return Err(StoreError::NotFound);
    }
    let key = generate_key();
    if store.contains_key_hash(key.hash.as_str()) {
        return Err(StoreError::Conflict);
    }
    if store.keys.len() as u64 >= 0x7fff_ffff_ffff_ffff {
        return Err(StoreError::Internal);
    }
    let insert_result = store.insert_api_key(key.hash.clone(), key.prefix.clone(), user_id, now);
    match insert_result {
        Ok(_) => Ok(key),
        Err(_) => {
            proof {
                assert(false);
            }
            Err(StoreError::Internal)
        },
    }
}

/// Revokes every active key with this prefix, permanently. `NotFound` means
/// no active key matched and nothing changed; otherwise the count of keys
/// revoked is returned.
pub fn revoke_key(store: &mut CredentialStore, prefix: &str, now: i64) -> (r: Result<
    usize,
    StoreError,
>)
    requires
        old(store).well_formed(),
    ensures
        final(store).well_formed(),
        final(store).users@ == old(store).users@,
        final(store).codes@ == old(store).codes@,
        final(store).keys@.len() == old(store).keys@.len(),
        forall|i: int|
            0 <= i < old(store).keys@.len() ==> final(store).keys@[i] == (if old(
                store,
            ).keys@[i].key_prefix@ == prefix@ && old(store).keys@[i].revoked_at is None {
                revoked_key(old(store).keys@[i], now)
            } else {
                old(store).keys@[i]
            }),
        match r {
            Ok(count) => {
                &&& count == count_active_with_prefix(old(store).keys@, prefix@)
                &&& count > 0
            },
            Err(StoreError::NotFound) => {
                &&& count_active_with_prefix(old(store).keys@, prefix@) == 0
                &&& final(store).keys@ == old(store).keys@
            },
            Err(_) => false,
        },
{
    let count = store.revoke_key_by_prefix(prefix, now);
    if count == 0 {
        proof {
            lemma_count_active_pos(old(store).keys@, prefix@);
            assert(store.keys@ =~= old(store).keys@);
        }
        Err(StoreError::NotFound)
    } else {
        Ok(count)
    }
}

/// Issues an activation code for an existing user, superseding any unused
/// codes the user still had. The full code in the result is shown once and
/// never retrievable again.
pub fn create_activation_code(store: &mut CredentialStore, user_id: i64, now: i64) -> (r: Result<
    GeneratedActivationCode,
    StoreError,
>)
    requires
        old(store).well_formed(),
    ensures
        final(store).well_formed(),
        final(store).users@ == old(store).users@,
        final(store).keys@ == old(store).keys@,
        match r {
            Ok(c) => {
                &&& 1 <= user_id <= old(store).users@.len()
                &&& activation_code_wf(c.full_code@)
                &&& c.hash@ == sha256_hex(c.full_code@)
                &&& c.prefix@ == activation_code_prefix_of(c.full_code@)
                &&& final(store).codes@.len() == old(store).codes@.len() + 1
                &&& forall|i: int|
                    0 <= i < old(store).codes@.len() ==> final(store).codes@[i] == (if old(
                        store,
                    ).codes@[i].user_id == user_id && old(store).codes@[i].used_at is None {
                        crate::store::used_code(old(store).codes@[i], now)
                    } else {
                        old(store).codes@[i]
                    })
                &&& final(store).codes@.last().id == old(store).codes@.len() + 1
                &&& final(store).codes@.last().code_hash@ == sha256_hex(c.full_code@)
                &&& final(store).codes@.last().code_prefix@ == c.prefix@
                &&& final(store).codes@.last().user_id == user_id
                &&& final(store).codes@.last().created_at == now
                &&& final(store).codes@.last().used_at is None
            },
            Err(StoreError::NotFound) => {
                &&& !(1 <= user_id <= old(store).users@.len())
                &&& *final(store) == *old(store)
            },
            Err(StoreError::Conflict) => {
                &&& 1 <= user_id <= old(store).users@.len()
                &&& old(store).codes@.len() > 0
                &&& *final(store) == *old(store)
            },
            Err(StoreError::Internal) => {
                &&& 1 <= user_id <= old(store).users@.len()
                &&& !table_has_room(old(store).codes@.len())
                &&& *final(store) == *old(store)
            },
        },
{
    issue_activation_code(store, user_id, now)
}

} // verus!
