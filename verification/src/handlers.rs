//! The identity service's operations: validation of presented API keys, the
//! one-time activation-code exchange, and enumeration-resistant registration.
//!
//! Each operation takes the credential store and the current timestamp as
//! arguments; reading the clock and speaking HTTP stay outside the library.

use vstd::prelude::*;

verus! {

use vstd::string::*;
use vstd::utf8::encode_utf8;
use crate::crypto::{
    activation_code_prefix_of,
    activation_code_wf,
    api_key_prefix_of,
    api_key_wf,
    generate_activation_code,
    generate_key,
    hash_key,
    sha256_hex,
    GeneratedActivationCode,
    GeneratedKey,
};
use crate::store::{
    has_active_key,
    has_code_hash,
    has_email,
    has_key_hash,
    has_unused_code,
    table_has_room,
    used_code,
    ApiKey,
    CredentialStore,
    Role,
    StoreError,
    SubscriptionStatus,
    User,
};

/// What str::trim leaves of a string: a function of the characters alone.
pub uninterp spec fn trim_of(s: Seq<char>) -> Seq<char>;

/// What str::to_lowercase makes of a string: a function of the characters
/// alone.
pub uninterp spec fn lower_of(s: Seq<char>) -> Seq<char>;

/// Relies on str::trim: the result depends on the input characters alone.
#[verifier::external_body]
fn trim(s: &str) -> (r: &str)
    ensures
        r@ == trim_of(s@),
{
    s.trim()
}

/// Relies on str::to_lowercase: the result depends on the input characters
/// alone.
#[verifier::external_body]
fn lowercase(s: &str) -> (r: String)
    ensures
        r@ == lower_of(s@),
{
    s.to_lowercase()
}

/// The byte sequence has its single `@` at position `k`.
pub open spec fn email_at_sign_at(b: Seq<u8>, k: int) -> bool {
    &&& 0 <= k < b.len()
    &&& b[k] == 64
    &&& forall|j: int| 0 <= j < b.len() && j != k ==> b[j] != 64
}

/// A syntactically acceptable email, over UTF-8 bytes: nonempty, at most 254
/// bytes, exactly one `@` with a nonempty local part before it and a
/// nonempty domain after it, and a `.` somewhere in the domain.
pub open spec fn valid_email_bytes(b: Seq<u8>) -> bool {
    &&& 1 <= b.len() <= 254
    &&& exists|k: int|
        {
            &&& #[trigger] email_at_sign_at(b, k)
            &&& 1 <= k < b.len() - 1
            &&& exists|j: int| k < j < b.len() && b[j] == 46
        }
}

/// Exact check of the email grammar over raw bytes.
pub fn email_bytes_valid(b: &[u8]) -> (r: bool)
    ensures
        r == valid_email_bytes(b@),
{
    let n = b.len();
    if n == 0 || n > 254 {
        return false;
    }
    let mut at_pos: usize = 0;
    let mut at_count: usize = 0;
    let mut second_at: usize = 0;
    for i in 0..n
        invariant
            n == b@.len(),
            at_count <= i,
            at_count == 0 ==> forall|j: int| 0 <= j < i ==> b@[j] != 64,
            at_count >= 1 ==> at_pos < i && b@[at_pos as int] == 64,
            at_count == 1 ==> forall|j: int| 0 <= j < i && j != at_pos ==> b@[j] != 64,
            at_count >= 2 ==> at_pos < second_at < i && b@[second_at as int] == 64,
    {
        if b[i] == 64 {
            if at_count == 0 {
                at_pos = i;
            } else if at_count == 1 {
                second_at = i;
            }
            at_count += 1;
        }
    }
    if at_count == 0 {
        proof {
            assert forall|k: int| !email_at_sign_at(b@, k) by {
                if 0 <= k < b@.len() {
                    assert(b@[k] != 64);
                }
            }
        }
        return false;
    }
    if at_count >= 2 {
        proof {
            assert forall|k: int| !email_at_sign_at(b@, k) by {
                if email_at_sign_at(b@, k) {
                    if k != at_pos {
                        assert(b@[at_pos as int] != 64);
                    } else {
                        assert(b@[second_at as int] != 64);
                    }
                }
            }
        }
        return false;
    }
    proof {
        assert forall|k: int| email_at_sign_at(b@, k) implies k == at_pos by {
            if k != at_pos {
                assert(b@[at_pos as int] != 64);
            }
        }
        assert(email_at_sign_at(b@, at_pos as int));
    }
    if at_pos == 0 || at_pos == n - 1 {
        return false;
    }
    let dot_start = at_pos + 1;
    for j in dot_start..n
        invariant
            n == b@.len(),
            1 <= n <= 254,
            dot_start == at_pos + 1,
            at_pos < n,
            email_at_sign_at(b@, at_pos as int),
            1 <= at_pos < n - 1,
            forall|m: int| at_pos < m < j ==> b@[m] != 46,
    {
        if b[j] == 46 {
            proof {
                assert(email_at_sign_at(b@, at_pos as int));
                assert(1 <= at_pos && (at_pos as int) < b@.len() - 1);
                assert(at_pos < j && (j as int) < b@.len() && b@[j as int] == 46);
            }
            return true;
        }
    }
    proof {
        assert forall|k: int|
            !(email_at_sign_at(b@, k) && 1 <= k < b@.len() - 1 && exists|j: int|
                k < j < b@.len() && b@[j] == 46) by {
            if email_at_sign_at(b@, k) {
                assert(k == at_pos);
                assert forall|j: int| k < j < b@.len() implies b@[j] != 46 by {}
            }
        }
    }
    false
}

/// Basic email format validation, applied to the input after trimming, as
/// the registration flow sees it.
pub fn is_valid_email(email: &str) -> (r: bool)
    ensures
        r == valid_email_bytes(encode_utf8(trim_of(email@))),
{
    let t = trim(email);
    let b = t.as_bytes();
    email_bytes_valid(b)
}

/// A validation request: the presented secret.
pub struct ValidateRequest {
    pub api_key: String,
}

/// The identity bound to a valid key, as reported to callers.
pub struct UserInfo {
    pub id: i64,
    pub email: String,
    pub role: Role,
    pub subscription_status: SubscriptionStatus,
}

/// The outcome of a validation: either `valid` with the bound identity, or a
/// rejection with one generic message for every failure cause.
pub struct ValidateResponse {
    pub valid: bool,
    pub user: Option<UserInfo>,
    pub error: Option<String>,
}

/// The identity fields exposed for a user record.
pub open spec fn user_info_of(u: User) -> UserInfo {
    UserInfo { id: u.id, email: u.email, role: u.role, subscription_status: u.subscription_status }
}

/// Validates a presented secret: hashes it and looks for an unrevoked key
/// with that hash. Read-only and free of side effects. An unknown and a
/// revoked key yield the same response, so a caller learns nothing about key
/// lifecycle state.
pub fn validate(store: &CredentialStore, req: &ValidateRequest) -> (resp: ValidateResponse)
    requires
        store.well_formed(),
    ensures
        resp.valid == has_active_key(store.keys@, sha256_hex(req.api_key@)),
        resp.valid ==> resp.error is None,
        resp.valid ==> match resp.user {
            Some(u) => exists|i: int|
                {
                    &&& 0 <= i < store.keys@.len()
                    &&& (#[trigger] store.keys@[i]).key_hash@ == sha256_hex(req.api_key@)
                    &&& store.keys@[i].revoked_at is None
                    &&& 1 <= store.keys@[i].user_id <= store.users@.len()
                    &&& u == user_info_of(store.users@[store.keys@[i].user_id - 1])
                },
            None => false,
        },
        !resp.valid ==> resp.user is None,
        !resp.valid ==> match resp.error {
            Some(m) => m@ == "Invalid or revoked API key"@,
            None => false,
        },
{
    let key_hash = hash_key(req.api_key.as_str());
    match store.find_active_key_by_hash(key_hash.as_str()) {
        Some((user, _key)) => ValidateResponse {
            valid: true,
            user: Some(
                UserInfo {
                    id: user.id,
                    email: user.email,
                    role: user.role,
                    subscription_status: user.subscription_status,
                },
            ),
            error: None,
        },
        None => ValidateResponse {
            valid: false,
            user: None,
            error: Some("Invalid or revoked API key".to_owned()),
        },
    }
}

/// How an exchange fails.
#[derive(Clone, Copy, PartialEq, Eq, Structural, Debug)]
pub enum ExchangeError {
    /// The presented code is unknown, already consumed, or superseded; the
    /// three are deliberately indistinguishable.
    InvalidOrUsedCode,
    /// The freshly generated key could not be stored (hash collision or a
    /// full table); the code was not consumed.
    Internal,
}

/// Consumes an unused activation code and mints a fresh API key bound to the
/// code's owner, atomically: on success the code row is marked used and
/// exactly one key row is appended; on any failure the store is untouched.
/// Once consumed, no unused row carries the code's hash, so a second
/// exchange of the same code must fail.
pub fn exchange_code(store: &mut CredentialStore, presented: &str, now: i64) -> (r: Result<
    GeneratedKey,
    ExchangeError,
>)
    requires
        old(store).well_formed(),
    ensures
        final(store).well_formed(),
        final(store).users@ == old(store).users@,
        match r {
            Ok(k) => {
                &&& has_unused_code(old(store).codes@, sha256_hex(presented@))
                &&& api_key_wf(k.full_key@)
                &&& k.hash@ == sha256_hex(k.full_key@)
                &&& k.hash@.len() == 64
                &&& k.prefix@ == api_key_prefix_of(k.full_key@)
                &&& !has_key_hash(old(store).keys@, k.hash@)
                &&& exists|ci: int|
                    {
                        &&& 0 <= ci < old(store).codes@.len()
                        &&& (#[trigger] old(store).codes@[ci]).code_hash@ == sha256_hex(
                            presented@,
                        )
                        &&& old(store).codes@[ci].used_at is None
                        &&& final(store).codes@ =~= old(store).codes@.update(
                            ci,
                            used_code(old(store).codes@[ci], now),
                        )
                        &&& final(store).keys@ =~= old(store).keys@.push(
                            (ApiKey {
                                id: (old(store).keys@.len() + 1) as i64,
                                key_hash: k.hash,
                                key_prefix: k.prefix,
                                user_id: old(store).codes@[ci].user_id,
                                created_at: now,
                                revoked_at: None,
                            }),
                        )
                    }
                &&& !has_unused_code(final(store).codes@, sha256_hex(presented@))
            },
            Err(ExchangeError::InvalidOrUsedCode) => {
                &&& !has_unused_code(old(store).codes@, sha256_hex(presented@))
                &&& *final(store) == *old(store)
            },
            Err(ExchangeError::Internal) => {
                &&& has_unused_code(old(store).codes@, sha256_hex(presented@))
                &&& (old(store).keys@.len() > 0 || !table_has_room(old(store).keys@.len()))
                &&& *final(store) == *old(store)
            },
        },
{
    let code_hash = hash_key(presented);
    let found = store.find_unused_code_by_hash(code_hash.as_str());
    match found {
        None => Err(ExchangeError::InvalidOrUsedCode),
        Some((code_id, user_id)) => {
            // Generate first and check both ways the insert could fail, so
            // that nobody can observe the code consumed without the new key.
            let key = generate_key();
            if store.contains_key_hash(key.hash.as_str()) {
                return Err(ExchangeError::Internal);
            }
            if store.keys.len() as u64 >= 0x7fff_ffff_ffff_ffff {
                return Err(ExchangeError::Internal);
            }
            let ghost ci: int = code_id - 1;
            store.mark_code_used(code_id, now);
            let insert_result = store.insert_api_key(
                key.hash.clone(),
                key.prefix.clone(),
                user_id,
                now,
            );
            match insert_result {
                Ok(_) => {
                    proof {
                        let h = sha256_hex(presented@);
                        assert(final(store).codes@[ci].used_at is Some);
                        assert forall|j: int|
                            0 <= j < final(store).codes@.len() && final(store).codes@[j].code_hash@
                                == h implies !(final(store).codes@[j].used_at is None) by {
                            if j != ci {
                                assert(old(store).codes@[j].code_hash@ != old(
                                    store,
                                ).codes@[ci].code_hash@);
                            }
                        }
                    }
                    Ok(key)
                },
                Err(_) => {
                    proof {
                        assert(false);
                    }
                    Err(ExchangeError::Internal)
                },
            }
        },
    }
}

/// An activation request: the presented one-time code.
pub struct ActivateRequest {
    pub activation_code: String,
}

/// The outcome of an activation: on success the new key's full secret,
/// returned exactly once; otherwise one generic error message.
pub struct ActivateResponse {
    pub success: bool,
    pub api_key: Option<String>,
    pub error: Option<String>,
}

/// Exchanges an activation code for an API key and shapes the outcome for
/// the network caller. A rejected code yields a completed response with one
/// generic message; only an internal storage failure surfaces as an error.
pub fn activate(store: &mut CredentialStore, req: &ActivateRequest, now: i64) -> (r: Result<
    ActivateResponse,
    StoreError,
>)
    requires
        old(store).well_formed(),
    ensures
        final(store).well_formed(),
        final(store).users@ == old(store).users@,
        match r {
            Ok(resp) => {
                &&& resp.success == has_unused_code(
                    old(store).codes@,
                    sha256_hex(req.activation_code@),
                )
                &&& resp.success ==> match resp.api_key {
                    Some(full) => {
                        &&& api_key_wf(full@)
                        &&& !has_unused_code(final(store).codes@, sha256_hex(req.activation_code@))
                        &&& exists|ci: int|
                            {
                                &&& 0 <= ci < old(store).codes@.len()
                                &&& (#[trigger] old(store).codes@[ci]).code_hash@ == sha256_hex(
                                    req.activation_code@,
                                )
                                &&& old(store).codes@[ci].used_at is None
                                &&& final(store).codes@ =~= old(store).codes@.update(
                                    ci,
                                    used_code(old(store).codes@[ci], now),
                                )
                                &&& final(store).keys@.len() == old(store).keys@.len() + 1
                                &&& final(store).keys@ =~= old(store).keys@.push(
                                    final(store).keys@.last(),
                                )
                                &&& final(store).keys@.last().key_hash@ == sha256_hex(full@)
                                &&& final(store).keys@.last().key_hash@.len() == 64
                                &&& !has_key_hash(old(store).keys@, sha256_hex(full@))
                                &&& final(store).keys@.last().key_prefix@ == api_key_prefix_of(
                                    full@,
                                )
                                &&& final(store).keys@.last().user_id == old(
                                    store,
                                ).codes@[ci].user_id
                                &&& final(store).keys@.last().created_at == now
                                &&& final(store).keys@.last().revoked_at is None
                            }
                        &&& resp.error is None
                    },
                    None => false,
                }
                &&& !resp.success ==> {
                    &&& *final(store) == *old(store)
                    &&& resp.api_key is None
                    &&& match resp.error {
                        Some(m) => m@ == "Invalid or already used activation code"@,
                        None => false,
                    }
                }
            },
            Err(e) => {
                &&& e == StoreError::Internal
                &&& *final(store) == *old(store)
                &&& has_unused_code(old(store).codes@, sha256_hex(req.activation_code@))
                &&& (old(store).keys@.len() > 0 || !table_has_room(old(store).keys@.len()))
            },
        },
{
    match exchange_code(store, req.activation_code.as_str(), now) {
        Ok(key) => Ok(
            ActivateResponse { success: true, api_key: Some(key.full_key), error: None },
        ),
        Err(ExchangeError::InvalidOrUsedCode) => Ok(
            ActivateResponse {
                success: false,
                api_key: None,
                error: Some("Invalid or already used activation code".to_owned()),
            },
        ),
        Err(ExchangeError::Internal) => Err(StoreError::Internal),
    }
}

/// Issues a fresh activation code for a user. Issuance supersedes: every
/// unused code the user still had is marked used at `now`, so only the
/// newest code can ever be exchanged. Atomic: on any failure the store is
/// untouched.
pub fn issue_activation_code(store: &mut CredentialStore, user_id: i64, now: i64) -> (r: Result<
    GeneratedActivationCode,
    StoreError,
>)
    requires
        old(store).well_formed(),
    ensures
        final(store).well_formed(),
        final(store).users@ == old(store).users@,
        final(store).keys@ == old(store).keys@,
        match r {
            Ok(c) => {
                &&& 1 <= user_id <= old(store).users@.len()
                &&& activation_code_wf(c.full_code@)
                &&& c.hash@ == sha256_hex(c.full_code@)
                &&& c.prefix@ == activation_code_prefix_of(c.full_code@)
                &&& !has_code_hash(old(store).codes@, c.hash@)
                &&& final(store).codes@.len() == old(store).codes@.len() + 1
                &&& forall|i: int|
                    0 <= i < old(store).codes@.len() ==> final(store).codes@[i] == (if old(
                        store,
                    ).codes@[i].user_id == user_id && old(store).codes@[i].used_at is None {
                        used_code(old(store).codes@[i], now)
                    } else {
                        old(store).codes@[i]
                    })
                &&& final(store).codes@.last().id == old(store).codes@.len() + 1
                &&& final(store).codes@.last().code_hash@ == sha256_hex(c.full_code@)
                &&& final(store).codes@.last().code_prefix@ == c.prefix@
                &&& final(store).codes@.last().user_id == user_id
                &&& final(store).codes@.last().created_at == now
                &&& final(store).codes@.last().used_at is None
                &&& has_unused_code(final(store).codes@, sha256_hex(c.full_code@))
            },
            Err(StoreError::NotFound) => {
                &&& !(1 <= user_id <= old(store).users@.len())
                &&& *final(store) == *old(store)
            },
            Err(StoreError::Conflict) => {
                &&& 1 <= user_id <= old(store).users@.len()
                &&& old(store).codes@.len() > 0
                &&& *final(store) == *old(store)
            },
            Err(StoreError::Internal) => {
                &&& 1 <= user_id <= old(store).users@.len()
                &&& !table_has_room(old(store).codes@.len())
                &&& *final(store) == *old(store)
            },
        },
{
    if user_id < 1 || user_id as u64 > store.users.len() as u64 {
        return Err(StoreError::NotFound);
    }
    // Generate first and check both ways the insert could fail, so that a
    // failed issuance leaves the previous codes untouched as well.
    let code = generate_activation_code();
    if store.contains_code_hash(code.hash.as_str()) {
        return Err(StoreError::Conflict);
    }
    if store.codes.len() as u64 >= 0x7fff_ffff_ffff_ffff {
        return Err(StoreError::Internal);
    }
    let ghost mid_pre = *store;
    store.invalidate_unused_codes(user_id, now);
    proof {
        assert forall|j: int|
            0 <= j < store.codes@.len() implies store.codes@[j].code_hash@ == mid_pre.codes@[j].code_hash@ by {}
        assert(!has_code_hash(store.codes@, code.hash@));
    }
    let insert_result = store.insert_activation_code(
        code.hash.clone(),
        code.prefix.clone(),
        user_id,
        now,
    );
    match insert_result {
        Ok(_) => {
            proof {
                let last = store.codes@.len() - 1;
                assert(store.codes@[last].code_hash@ == sha256_hex(code.full_code@));
                assert(store.codes@[last].used_at is None);
            }
            Ok(code)
        },
        Err(_) => {
            proof {
                assert(false);
            }
            Err(StoreError::Internal)
        },
    }
}

/// Issuance supersedes: after the code-table effect of issuing a fresh code
/// for a user, no unused row carries the hash of any code that user held
/// unused before. Presenting such a superseded code to the exchange
/// therefore fails, since the exchange succeeds exactly on hashes with an
/// unused row.
pub proof fn lemma_issuance_supersedes(
    pre: CredentialStore,
    post: CredentialStore,
    user_id: i64,
    h: Seq<char>,
    now: i64,
    new_hash: Seq<char>,
)
    requires
        pre.well_formed(),
        exists|i: int|
            0 <= i < pre.codes@.len() && (#[trigger] pre.codes@[i]).code_hash@ == h
                && pre.codes@[i].used_at is None && pre.codes@[i].user_id == user_id,
        post.codes@.len() == pre.codes@.len() + 1,
        forall|i: int|
            0 <= i < pre.codes@.len() ==> post.codes@[i] == (if pre.codes@[i].user_id == user_id
                && pre.codes@[i].used_at is None {
                used_code(pre.codes@[i], now)
            } else {
                pre.codes@[i]
            }),
        post.codes@.last().code_hash@ == new_hash,
        !has_code_hash(pre.codes@, new_hash),
    ensures
        !has_unused_code(post.codes@, h),
{
    let i = choose|i: int|
        0 <= i < pre.codes@.len() && (#[trigger] pre.codes@[i]).code_hash@ == h
            && pre.codes@[i].used_at is None && pre.codes@[i].user_id == user_id;
    assert(has_code_hash(pre.codes@, h));
    assert forall|j: int|
        0 <= j < post.codes@.len() && post.codes@[j].code_hash@ == h implies !(
    post.codes@[j].used_at is None) by {
        if j < pre.codes@.len() && j != i {
            if j < i {
                assert(pre.codes@[j].code_hash@ != pre.codes@[i].code_hash@);
            } else {
                assert(pre.codes@[i].code_hash@ != pre.codes@[j].code_hash@);
            }
        }
    }
}

/// A registration request: the address to provision.
pub struct RegisterRequest {
    pub email: String,
}

/// The registration response: one fixed shape for every outcome, so that
/// nobody can probe which addresses exist.
pub struct RegisterResponse {
    pub success: bool,
    pub message: String,
}

/// What the flow hands to the email collaborator when a code was issued:
/// the canonical address, the owning user, and the one-time code.
pub struct IssuedActivation {
    pub email: String,
    pub user_id: i64,
    pub full_code: String,
}

/// The canonical form under which an address is stored: trimmed, then
/// lowercased.
pub open spec fn canonical_email_of(s: Seq<char>) -> Seq<char> {
    lower_of(trim_of(s))
}

/// Whether registration treats the raw address as syntactically acceptable:
/// the canonical form passes the email grammar.
pub open spec fn registration_accepts(s: Seq<char>) -> bool {
    valid_email_bytes(encode_utf8(trim_of(canonical_email_of(s))))
}

/// The store effect of a registration that issued a code: the owning user
/// carries the canonical address (created as a trial customer if new), all
/// of that user's older unused codes are superseded, and exactly one fresh
/// unused code row is appended.
pub open spec fn register_issued_effect(
    pre: CredentialStore,
    post: CredentialStore,
    iss: IssuedActivation,
    canon: Seq<char>,
    now: i64,
) -> bool {
    &&& iss.email@ == canon
    &&& activation_code_wf(iss.full_code@)
    &&& 1 <= iss.user_id <= post.users@.len()
    &&& post.users@[iss.user_id - 1].email@ == canon
    &&& (if has_email(pre.users@, canon) {
        post.users@ == pre.users@
    } else {
        &&& post.users@.len() == pre.users@.len() + 1
        &&& (forall|i: int| 0 <= i < pre.users@.len() ==> post.users@[i] == pre.users@[i])
        &&& post.users@.last().email@ == canon
        &&& post.users@.last().role == Role::Customer
        &&& post.users@.last().subscription_status == SubscriptionStatus::Trial
        &&& post.users@.last().created_at == now
        &&& iss.user_id == pre.users@.len() + 1
    })
    &&& post.codes@.len() == pre.codes@.len() + 1
    &&& forall|i: int|
        0 <= i < pre.codes@.len() ==> post.codes@[i] == (if pre.codes@[i].user_id == iss.user_id
            && pre.codes@[i].used_at is None {
            used_code(pre.codes@[i], now)
        } else {
            pre.codes@[i]
        })
    &&& post.codes@.last().code_hash@ == sha256_hex(iss.full_code@)
    &&& post.codes@.last().code_prefix@ == activation_code_prefix_of(iss.full_code@)
    &&& post.codes@.last().user_id == iss.user_id
    &&& post.codes@.last().created_at == now
    &&& post.codes@.last().used_at is None
    &&& has_unused_code(post.codes@, sha256_hex(iss.full_code@))
}

/// The store effect of a registration whose internal failure was swallowed:
/// no code row changed; at most, a fresh user row for the canonical address
/// was created first.
pub open spec fn register_swallowed_effect(
    pre: CredentialStore,
    post: CredentialStore,
    canon: Seq<char>,
) -> bool {
    &&& post.codes@ == pre.codes@
    &&& post.keys@ == pre.keys@
    &&& (post.users@ == pre.users@ || {
        &&& !has_email(pre.users@, canon)
        &&& post.users@.len() == pre.users@.len() + 1
        &&& (forall|i: int| 0 <= i < pre.users@.len() ==> post.users@[i] == pre.users@[i])
        &&& post.users@.last().email@ == canon
    })
}

/// Registers an address: provisions a user if needed and issues a fresh
/// activation code, superseding older ones. The response is the same for a
/// malformed address, an existing user and a new user; only the store
/// side effects differ, and every internal failure is swallowed behind the
/// same fixed response.
pub fn register(store: &mut CredentialStore, req: &RegisterRequest, now: i64) -> (r: (
    RegisterResponse,
    Option<IssuedActivation>,
))
    requires
        old(store).well_formed(),
    ensures
        final(store).well_formed(),
        final(store).keys@ == old(store).keys@,
        r.0.success,
        r.0.message@ == "If this email is valid, you will receive an activation code shortly"@,
        !registration_accepts(req.email@) ==> *final(store) == *old(store) && r.1 is None,
        registration_accepts(req.email@) ==> match r.1 {
            Some(iss) => register_issued_effect(
                *old(store),
                *final(store),
                iss,
                canonical_email_of(req.email@),
                now,
            ),
            None => register_swallowed_effect(
                *old(store),
                *final(store),
                canonical_email_of(req.email@),
            ),
        },
        registration_accepts(req.email@) && r.1 is None ==> old(store).codes@.len() > 0
            || !table_has_room(old(store).users@.len()) || !table_has_room(
            old(store).codes@.len(),
        ),
{
    let response = RegisterResponse {
        success: true,
        message: "If this email is valid, you will receive an activation code shortly".to_owned(),
    };
    let trimmed = trim(req.email.as_str());
    let canonical = lowercase(trimmed);
    if !is_valid_email(canonical.as_str()) {
        return (response, None);
    }
    let user_id = match store.find_user_by_email(canonical.as_str()) {
        Some(user) => {
            proof {
                let i = choose|i: int|
                    0 <= i < store.users@.len() && store.users@[i] == user;
                assert(store.users@[i].id == i + 1);
            }
            user.id
        },
        None => {
            let created = store.create_user(
                canonical.clone(),
                Role::Customer,
                SubscriptionStatus::Trial,
                now,
            );
            match created {
                Ok(id) => id,
                Err(_) => {
                    return (response, None);
                },
            }
        },
    };
    match issue_activation_code(store, user_id, now) {
        Ok(code) => (
            response,
            Some(
                IssuedActivation { email: canonical, user_id, full_code: code.full_code },
            ),
        ),
        Err(_) => (response, None),
    }
}

} // verus!
