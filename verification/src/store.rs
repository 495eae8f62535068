//! The credential store: users, API keys and activation codes.
//!
//! This is the repository at the heart of the identity service. Every
//! operation is individually atomic: it either performs its whole effect or
//! leaves the store untouched, and each contract states exactly which. Rows
//! are never deleted; keys are disabled by setting `revoked_at` and codes are
//! spent by setting `used_at`, and neither mark is ever cleared.

use vstd::prelude::*;

verus! {

use vstd::string::*;
use crate::strutil::str_eq;

/// The closed set of user roles.
#[derive(Clone, Copy, PartialEq, Eq, Structural, Debug)]
pub enum Role {
    Admin,
    Support,
    Customer,
}

/// The closed set of subscription states.
#[derive(Clone, Copy, PartialEq, Eq, Structural, Debug)]
pub enum SubscriptionStatus {
    Active,
    Inactive,
    Trial,
}

/// How a store operation fails.
#[derive(Clone, Copy, PartialEq, Eq, Structural, Debug)]
pub enum StoreError {
    /// No user, key or code matches the given handle.
    NotFound,
    /// A unique column (email or secret hash) is already taken.
    Conflict,
    /// An internal limit was hit; not otherwise classified.
    Internal,
}

impl Role {
    /// The role's stored string form.
    pub fn as_str(&self) -> (s: &'static str)
        ensures
            s@ == (match self {
                Role::Admin => "admin"@,
                Role::Support => "support"@,
                Role::Customer => "customer"@,
            }),
    {
        match self {
            Role::Admin => "admin",
            Role::Support => "support",
            Role::Customer => "customer",
        }
    }

    /// Parses a stored role string; `None` for anything outside the closed set.
    pub fn from_str(s: &str) -> (r: Option<Role>)
        ensures
            r == (if s@ == "admin"@ {
                Some(Role::Admin)
            } else if s@ == "support"@ {
                Some(Role::Support)
            } else if s@ == "customer"@ {
                Some(Role::Customer)
            } else {
                None::<Role>
            }),
    {
        if str_eq(s, "admin") {
            Some(Role::Admin)
        } else if str_eq(s, "support") {
            Some(Role::Support)
        } else if str_eq(s, "customer") {
            Some(Role::Customer)
        } else {
            None
        }
    }
}

impl SubscriptionStatus {
    /// The status's stored string form.
    pub fn as_str(&self) -> (s: &'static str)
        ensures
            s@ == (match self {
                SubscriptionStatus::Active => "active"@,
                SubscriptionStatus::Inactive => "inactive"@,
                SubscriptionStatus::Trial => "trial"@,
            }),
    {
        match self {
            SubscriptionStatus::Active => "active",
            SubscriptionStatus::Inactive => "inactive",
            SubscriptionStatus::Trial => "trial",
        }
    }

    /// Parses a stored status string; `None` for anything outside the closed set.
    pub fn from_str(s: &str) -> (r: Option<SubscriptionStatus>)
        ensures
            r == (if s@ == "active"@ {
                Some(SubscriptionStatus::Active)
            } else if s@ == "inactive"@ {
                Some(SubscriptionStatus::Inactive)
            } else if s@ == "trial"@ {
                Some(SubscriptionStatus::Trial)
            } else {
                None::<SubscriptionStatus>
            }),
    {
        if str_eq(s, "active") {
            Some(SubscriptionStatus::Active)
        } else if str_eq(s, "inactive") {
            Some(SubscriptionStatus::Inactive)
        } else if str_eq(s, "trial") {
            Some(SubscriptionStatus::Trial)
        } else {
            None
        }
    }
}

/// A user record: the identity anchor.
pub struct User {
    pub id: i64,
    pub email: String,
    pub role: Role,
    pub subscription_status: SubscriptionStatus,
    pub created_at: i64,
}

/// An API key row. Only the hash and the non-secret prefix of the secret are
/// kept; a key authenticates only while `revoked_at` is `None`.
pub struct ApiKey {
    pub id: i64,
    pub key_hash: String,
    pub key_prefix: String,
    pub user_id: i64,
    pub created_at: i64,
    pub revoked_at: Option<i64>,
}

/// An activation code row. A code can be exchanged only while `used_at` is
/// `None`; once set, the code is permanently inert.
pub struct ActivationCode {
    pub id: i64,
    pub code_hash: String,
    pub code_prefix: String,
    pub user_id: i64,
    pub created_at: i64,
    pub used_at: Option<i64>,
}

impl User {
    /// An owned copy equal to this record.
    pub fn duplicate(&self) -> (r: User)
        ensures
            r == *self,
    {
        User {
            id: self.id,
            email: self.email.clone(),
            role: self.role,
            subscription_status: self.subscription_status,
            created_at: self.created_at,
        }
    }
}

impl ApiKey {
    /// An owned copy equal to this record.
    pub fn duplicate(&self) -> (r: ApiKey)
        ensures
            r == *self,
    {
        ApiKey {
            id: self.id,
            key_hash: self.key_hash.clone(),
            key_prefix: self.key_prefix.clone(),
            user_id: self.user_id,
            created_at: self.created_at,
            revoked_at: self.revoked_at,
        }
    }
}

/// Some user record carries this email.
pub open spec fn has_email(users: Seq<User>, email: Seq<char>) -> bool {
    exists|i: int| 0 <= i < users.len() && users[i].email@ == email
}

/// Some key row carries this hash (revoked or not).
pub open spec fn has_key_hash(keys: Seq<ApiKey>, h: Seq<char>) -> bool {
    exists|i: int| 0 <= i < keys.len() && keys[i].key_hash@ == h
}

/// Some unrevoked key row carries this hash.
pub open spec fn has_active_key(keys: Seq<ApiKey>, h: Seq<char>) -> bool {
    exists|i: int| 0 <= i < keys.len() && keys[i].key_hash@ == h && keys[i].revoked_at is None
}

/// Some code row carries this hash (used or not).
pub open spec fn has_code_hash(codes: Seq<ActivationCode>, h: Seq<char>) -> bool {
    exists|i: int| 0 <= i < codes.len() && codes[i].code_hash@ == h
}

/// Some unused code row carries this hash.
pub open spec fn has_unused_code(codes: Seq<ActivationCode>, h: Seq<char>) -> bool {
    exists|i: int| 0 <= i < codes.len() && codes[i].code_hash@ == h && codes[i].used_at is None
}

/// The id space is bounded by `i64::MAX`; an insert into a full table fails
/// with `StoreError::Internal` rather than wrapping around.
pub open spec fn table_has_room(len: nat) -> bool {
    len < 0x7fff_ffff_ffff_ffff
}

/// The credential store. Rows live in insertion order and row `i` carries
/// id `i + 1`, mirroring an autoincrement column.
pub struct CredentialStore {
    pub users: Vec<User>,
    pub keys: Vec<ApiKey>,
    pub codes: Vec<ActivationCode>,
}

impl CredentialStore {
    /// The store's structural invariant: ids follow insertion order, emails
    /// and secret hashes are unique, and every key or code belongs to an
    /// existing user.
    pub open spec fn well_formed(&self) -> bool {
        &&& forall|i: int|
            0 <= i < self.users@.len() ==> (#[trigger] self.users@[i]).id == i + 1
        &&& forall|i: int, j: int|
            0 <= i < j < self.users@.len() ==> self.users@[i].email@ != self.users@[j].email@
        &&& forall|i: int|
            0 <= i < self.keys@.len() ==> (#[trigger] self.keys@[i]).id == i + 1
        &&& forall|i: int, j: int|
            0 <= i < j < self.keys@.len() ==> self.keys@[i].key_hash@ != self.keys@[j].key_hash@
        &&& forall|i: int|
            0 <= i < self.keys@.len() ==> 1 <= (#[trigger] self.keys@[i]).user_id
                <= self.users@.len()
        &&& forall|i: int|
            0 <= i < self.codes@.len() ==> (#[trigger] self.codes@[i]).id == i + 1
        &&& forall|i: int, j: int|
            0 <= i < j < self.codes@.len() ==> self.codes@[i].code_hash@
                != self.codes@[j].code_hash@
        &&& forall|i: int|
            0 <= i < self.codes@.len() ==> 1 <= (#[trigger] self.codes@[i]).user_id
                <= self.users@.len()
    }

    /// An empty store.
    pub fn new() -> (s: CredentialStore)
        ensures
            s.well_formed(),
            s.users@.len() == 0,
            s.keys@.len() == 0,
            s.codes@.len() == 0,
    {
        CredentialStore { users: Vec::new(), keys: Vec::new(), codes: Vec::new() }
    }

    /// Creates a user; fails with `Conflict` exactly when the email is
    /// already taken, with `Internal` exactly when the id space is full.
    pub fn create_user(
        &mut self,
        email: String,
        role: Role,
        status: SubscriptionStatus,
        now: i64,
    ) -> (r: Result<i64, StoreError>)
        requires
            old(self).well_formed(),
        ensures
            final(self).well_formed(),
            final(self).keys@ == old(self).keys@,
            final(self).codes@ == old(self).codes@,
            match r {
                Ok(id) => {
                    &&& !has_email(old(self).users@, email@)
                    &&& table_has_room(old(self).users@.len())
                    &&& id == old(self).users@.len() + 1
                    &&& final(self).users@ =~= old(self).users@.push(
                        (User {
                            id,
                            email,
                            role,
                            subscription_status: status,
                            created_at: now,
                        }),
                    )
                },
                Err(StoreError::Conflict) => {
                    &&& has_email(old(self).users@, email@)
                    &&& final(self).users@ == old(self).users@
                },
                Err(StoreError::Internal) => {
                    &&& !has_email(old(self).users@, email@)
                    &&& !table_has_room(old(self).users@.len())
                    &&& final(self).users@ == old(self).users@
                },
                Err(StoreError::NotFound) => false,
            },
    {
        let n = self.users.len();
        for i in 0..n
            invariant
                n == self.users@.len(),
                self.well_formed(),
                forall|j: int| 0 <= j < i ==> self.users@[j].email@ != email@,
        {
            if str_eq(self.users[i].email.as_str(), email.as_str()) {
                return Err(StoreError::Conflict);
            }
        }
        if self.users.len() as u64 >= 0x7fff_ffff_ffff_ffff {
            return Err(StoreError::Internal);
        }
        let id = (self.users.len() as u64 + 1) as i64;
        let user = User { id, email, role, subscription_status: status, created_at: now };
        self.users.push(user);
        Ok(id)
    }

    /// Looks a user up by exact email; returns a copy of the record exactly
    /// when one carries that email.
    pub fn find_user_by_email(&self, email: &str) -> (r: Option<User>)
        requires
            self.well_formed(),
        ensures
            match r {
                Some(u) => {
                    &&& has_email(self.users@, email@)
                    &&& u.email@ == email@
                    &&& exists|i: int| 0 <= i < self.users@.len() && self.users@[i] == u
                },
                None => !has_email(self.users@, email@),
            },
    {
        let n = self.users.len();
        for i in 0..n
            invariant
                n == self.users@.len(),
                self.well_formed(),
                forall|j: int| 0 <= j < i ==> self.users@[j].email@ != email@,
        {
            if str_eq(self.users[i].email.as_str(), email) {
                return Some(self.users[i].duplicate());
            }
        }
        None
    }

    /// Inserts an API key row bound to `user_id`. Fails with `NotFound`
    /// exactly when the user does not exist, with `Conflict` exactly when the
    /// hash is already stored, with `Internal` exactly when the id space is
    /// full; otherwise appends the row unrevoked.
    pub fn insert_api_key(
        &mut self,
        key_hash: String,
        key_prefix: String,
        user_id: i64,
        now: i64,
    ) -> (r: Result<i64, StoreError>)
        requires
            old(self).well_formed(),
        ensures
            final(self).well_formed(),
            final(self).users@ == old(self).users@,
            final(self).codes@ == old(self).codes@,
            match r {
                Ok(id) => {
                    &&& 1 <= user_id <= old(self).users@.len()
                    &&& !has_key_hash(old(self).keys@, key_hash@)
                    &&& table_has_room(old(self).keys@.len())
                    &&& id == old(self).keys@.len() + 1
                    &&& final(self).keys@ =~= old(self).keys@.push(
                        (ApiKey {
                            id,
                            key_hash,
                            key_prefix,
                            user_id,
                            created_at: now,
                            revoked_at: None,
                        }),
                    )
                },
                Err(StoreError::NotFound) => {
                    &&& !(1 <= user_id <= old(self).users@.len())
                    &&& final(self).keys@ == old(self).keys@
                },
                Err(StoreError::Conflict) => {
                    &&& 1 <= user_id <= old(self).users@.len()
                    &&& has_key_hash(old(self).keys@, key_hash@)
                    &&& final(self).keys@ == old(self).keys@
                },
                Err(StoreError::Internal) => {
                    &&& 1 <= user_id <= old(self).users@.len()
                    &&& !has_key_hash(old(self).keys@, key_hash@)
                    &&& !table_has_room(old(self).keys@.len())
                    &&& final(self).keys@ == old(self).keys@
                },
            },
    {
        if user_id < 1 || user_id as u64 > self.users.len() as u64 {
            return Err(StoreError::NotFound);
        }
        let n = self.keys.len();
        for i in 0..n
            invariant
                n == self.keys@.len(),
                self.well_formed(),
                1 <= user_id <= self.users@.len(),
                forall|j: int| 0 <= j < i ==> self.keys@[j].key_hash@ != key_hash@,
        {
            if str_eq(self.keys[i].key_hash.as_str(), key_hash.as_str()) {
                return Err(StoreError::Conflict);
            }
        }
        if self.keys.len() as u64 >= 0x7fff_ffff_ffff_ffff {
            return Err(StoreError::Internal);
        }
        let id = (self.keys.len() as u64 + 1) as i64;
        let key = ApiKey { id, key_hash, key_prefix, user_id, created_at: now, revoked_at: None };
        self.keys.push(key);
        Ok(id)
    }

    /// Looks up an unrevoked key by hash, joined with its owning user. A
    /// revoked or unknown hash returns `None`; the join always succeeds on a
    /// well-formed store.
    pub fn find_active_key_by_hash(&self, key_hash: &str) -> (r: Option<(User, ApiKey)>)
        requires
            self.well_formed(),
        ensures
            match r {
                Some(pair) => {
                    &&& has_active_key(self.keys@, key_hash@)
                    &&& pair.1.key_hash@ == key_hash@
                    &&& pair.1.revoked_at is None
                    &&& exists|i: int| 0 <= i < self.keys@.len() && self.keys@[i] == pair.1
                    &&& 1 <= pair.1.user_id <= self.users@.len()
                    &&& pair.0 == self.users@[pair.1.user_id - 1]
                },
                None => !has_active_key(self.keys@, key_hash@),
            },
    {
        let n = self.keys.len();
        for i in 0..n
            invariant
                n == self.keys@.len(),
                self.well_formed(),
                forall|j: int|
                    0 <= j < i ==> !(self.keys@[j].key_hash@ == key_hash@
                        && self.keys@[j].revoked_at is None),
        {
            if self.keys[i].revoked_at.is_none() && str_eq(
                self.keys[i].key_hash.as_str(),
                key_hash,
            ) {
                let key = self.keys[i].duplicate();
                let user_count = self.users.len();
                proof {
                    assert(1 <= key.user_id <= user_count as int);
                }
                let owner_index = (key.user_id - 1) as usize;
                proof {
                    assert(owner_index as int == key.user_id - 1);
                }
                let user = self.users[owner_index].duplicate();
                return Some((user, key));
            }
        }
        None
    }
}

/// The same key row with its revocation mark set.
pub open spec fn revoked_key(k: ApiKey, now: i64) -> ApiKey {
    ApiKey { revoked_at: Some(now), ..k }
}

/// The same code row with its usage mark set.
pub open spec fn used_code(c: ActivationCode, now: i64) -> ActivationCode {
    ActivationCode { used_at: Some(now), ..c }
}

impl CredentialStore {
    /// Revokes every unrevoked key carrying this prefix and reports how many
    /// were hit; zero means no active key matched and nothing changed. An
    /// already-revoked key keeps its original revocation time: a revocation
    /// is never overwritten or cleared.
    pub fn revoke_key_by_prefix(&mut self, prefix: &str, now: i64) -> (count: usize)
        requires
            old(self).well_formed(),
        ensures
            final(self).well_formed(),
            final(self).users@ == old(self).users@,
            final(self).codes@ == old(self).codes@,
            final(self).keys@.len() == old(self).keys@.len(),
            forall|i: int|
                0 <= i < old(self).keys@.len() ==> final(self).keys@[i] == (if old(
                    self,
                ).keys@[i].key_prefix@ == prefix@ && old(self).keys@[i].revoked_at is None {
                    revoked_key(old(self).keys@[i], now)
                } else {
                    old(self).keys@[i]
                }),
            count == count_active_with_prefix(old(self).keys@, prefix@),
            count > 0 <==> exists|i: int|
                0 <= i < old(self).keys@.len() && old(self).keys@[i].key_prefix@ == prefix@ && old(
                    self,
                ).keys@[i].revoked_at is None,
    {
        let n = self.keys.len();
        let mut count: usize = 0;
        for i in 0..n
            invariant
                n == old(self).keys@.len(),
                old(self).well_formed(),
                self.users@ == old(self).users@,
                self.codes@ == old(self).codes@,
                self.keys@.len() == old(self).keys@.len(),
                count <= i,
                forall|j: int|
                    i <= j < old(self).keys@.len() ==> self.keys@[j] == old(self).keys@[j],
                forall|j: int|
                    0 <= j < i ==> self.keys@[j] == (if old(self).keys@[j].key_prefix@ == prefix@
                        && old(self).keys@[j].revoked_at is None {
                        revoked_key(old(self).keys@[j], now)
                    } else {
                        old(self).keys@[j]
                    }),
                count == count_active_with_prefix(old(self).keys@.take(i as int), prefix@),
        {
            proof {
                assert(old(self).keys@.take(i + 1).drop_last() =~= old(self).keys@.take(i as int));
                assert(old(self).keys@.take(i + 1).last() == old(self).keys@[i as int]);
            }
            if self.keys[i].revoked_at.is_none() && str_eq(
                self.keys[i].key_prefix.as_str(),
                prefix,
            ) {
                self.keys[i].revoked_at = Some(now);
                count += 1;
            }
        }
        proof {
            assert(old(self).keys@.take(n as int) =~= old(self).keys@);
            lemma_count_active_pos(old(self).keys@, prefix@);
            assert forall|i: int| 0 <= i < self.keys@.len() implies (#[trigger] self.keys@[i]).id
                == i + 1 by {
                assert(old(self).keys@[i].id == i + 1);
            }
            assert forall|i: int, j: int| 0 <= i < j < self.keys@.len() implies self.keys@[i].key_hash@
                != self.keys@[j].key_hash@ by {
                assert(old(self).keys@[i].key_hash@ != old(self).keys@[j].key_hash@);
            }
            assert forall|i: int| 0 <= i < self.keys@.len() implies 1 <= (
            #[trigger] self.keys@[i]).user_id <= self.users@.len() by {
                assert(1 <= old(self).keys@[i].user_id <= old(self).users@.len());
            }
        }
        count
    }

    /// Inserts an activation code row bound to `user_id`, with the same
    /// failure cases as `insert_api_key`.
    pub fn insert_activation_code(
        &mut self,
        code_hash: String,
        code_prefix: String,
        user_id: i64,
        now: i64,
    ) -> (r: Result<i64, StoreError>)
        requires
            old(self).well_formed(),
        ensures
            final(self).well_formed(),
            final(self).users@ == old(self).users@,
            final(self).keys@ == old(self).keys@,
            match r {
                Ok(id) => {
                    &&& 1 <= user_id <= old(self).users@.len()
                    &&& !has_code_hash(old(self).codes@, code_hash@)
                    &&& table_has_room(old(self).codes@.len())
                    &&& id == old(self).codes@.len() + 1
                    &&& final(self).codes@ =~= old(self).codes@.push(
                        (ActivationCode {
                            id,
                            code_hash,
                            code_prefix,
                            user_id,
                            created_at: now,
                            used_at: None,
                        }),
                    )
                },
                Err(StoreError::NotFound) => {
                    &&& !(1 <= user_id <= old(self).users@.len())
                    &&& final(self).codes@ == old(self).codes@
                },
                Err(StoreError::Conflict) => {
                    &&& 1 <= user_id <= old(self).users@.len()
                    &&& has_code_hash(old(self).codes@, code_hash@)
                    &&& final(self).codes@ == old(self).codes@
                },
                Err(StoreError::Internal) => {
                    &&& 1 <= user_id <= old(self).users@.len()
                    &&& !has_code_hash(old(self).codes@, code_hash@)
                    &&& !table_has_room(old(self).codes@.len())
                    &&& final(self).codes@ == old(self).codes@
                },
            },
    {
        if user_id < 1 || user_id as u64 > self.users.len() as u64 {
            return Err(StoreError::NotFound);
        }
        let n = self.codes.len();
        for i in 0..n
            invariant
                n == self.codes@.len(),
                self.well_formed(),
                1 <= user_id <= self.users@.len(),
                forall|j: int| 0 <= j < i ==> self.codes@[j].code_hash@ != code_hash@,
        {
            if str_eq(self.codes[i].code_hash.as_str(), code_hash.as_str()) {
                return Err(StoreError::Conflict);
            }
        }
        if self.codes.len() as u64 >= 0x7fff_ffff_ffff_ffff {
            return Err(StoreError::Internal);
        }
        let id = (self.codes.len() as u64 + 1) as i64;
        let code = ActivationCode {
            id,
            code_hash,
            code_prefix,
            user_id,
            created_at: now,
            used_at: None,
        };
        self.codes.push(code);
        Ok(id)
    }

    /// Looks up an unused activation code by hash, returning its id and its
    /// owning user's id. Used and unknown hashes are indistinguishable: both
    /// return `None`.
    pub fn find_unused_code_by_hash(&self, code_hash: &str) -> (r: Option<(i64, i64)>)
        requires
            self.well_formed(),
        ensures
            match r {
                Some(pair) => {
                    &&& has_unused_code(self.codes@, code_hash@)
                    &&& 1 <= pair.0 <= self.codes@.len()
                    &&& self.codes@[pair.0 - 1].code_hash@ == code_hash@
                    &&& self.codes@[pair.0 - 1].used_at is None
                    &&& pair.1 == self.codes@[pair.0 - 1].user_id
                },
                None => !has_unused_code(self.codes@, code_hash@),
            },
    {
        let n = self.codes.len();
        for i in 0..n
            invariant
                n == self.codes@.len(),
                self.well_formed(),
                forall|j: int|
                    0 <= j < i ==> !(self.codes@[j].code_hash@ == code_hash@
                        && self.codes@[j].used_at is None),
        {
            if self.codes[i].used_at.is_none() && str_eq(
                self.codes[i].code_hash.as_str(),
                code_hash,
            ) {
                return Some((self.codes[i].id, self.codes[i].user_id));
            }
        }
        None
    }

    /// Marks every unused code of this user as used at `now`: the first half
    /// of an issuance or an exchange. Codes of other users, and codes already
    /// used, keep their original mark.
    pub fn invalidate_unused_codes(&mut self, user_id: i64, now: i64)
        requires
            old(self).well_formed(),
        ensures
            final(self).well_formed(),
            final(self).users@ == old(self).users@,
            final(self).keys@ == old(self).keys@,
            final(self).codes@.len() == old(self).codes@.len(),
            forall|i: int|
                0 <= i < old(self).codes@.len() ==> final(self).codes@[i] == (if old(
                    self,
                ).codes@[i].user_id == user_id && old(self).codes@[i].used_at is None {
                    used_code(old(self).codes@[i], now)
                } else {
                    old(self).codes@[i]
                }),
    {
        let n = self.codes.len();
        for i in 0..n
            invariant
                n == old(self).codes@.len(),
                old(self).well_formed(),
                self.users@ == old(self).users@,
                self.keys@ == old(self).keys@,
                self.codes@.len() == old(self).codes@.len(),
                forall|j: int|
                    i <= j < old(self).codes@.len() ==> self.codes@[j] == old(self).codes@[j],
                forall|j: int|
                    0 <= j < i ==> self.codes@[j] == (if old(self).codes@[j].user_id == user_id
                        && old(self).codes@[j].used_at is None {
                        used_code(old(self).codes@[j], now)
                    } else {
                        old(self).codes@[j]
                    }),
        {
            if self.codes[i].used_at.is_none() && self.codes[i].user_id == user_id {
                self.codes[i].used_at = Some(now);
            }
        }
        proof {
            assert forall|i: int| 0 <= i < self.codes@.len() implies (#[trigger] self.codes@[i]).id
                == i + 1 by {
                assert(old(self).codes@[i].id == i + 1);
            }
            assert forall|i: int, j: int| 0 <= i < j < self.codes@.len() implies self.codes@[i].code_hash@
                != self.codes@[j].code_hash@ by {
                assert(old(self).codes@[i].code_hash@ != old(self).codes@[j].code_hash@);
            }
            assert forall|i: int| 0 <= i < self.codes@.len() implies 1 <= (
            #[trigger] self.codes@[i]).user_id <= self.users@.len() by {
                assert(1 <= old(self).codes@[i].user_id <= old(self).users@.len());
            }
        }
    }

    /// Whether any key row (revoked or not) already carries this hash.
    pub fn contains_key_hash(&self, h: &str) -> (r: bool)
        requires
            self.well_formed(),
        ensures
            r == has_key_hash(self.keys@, h@),
    {
        let n = self.keys.len();
        for i in 0..n
            invariant
                n == self.keys@.len(),
                forall|j: int| 0 <= j < i ==> self.keys@[j].key_hash@ != h@,
        {
            if str_eq(self.keys[i].key_hash.as_str(), h) {
                return true;
            }
        }
        false
    }

    /// Whether any code row (used or not) already carries this hash.
    pub fn contains_code_hash(&self, h: &str) -> (r: bool)
        requires
            self.well_formed(),
        ensures
            r == has_code_hash(self.codes@, h@),
    {
        let n = self.codes.len();
        for i in 0..n
            invariant
                n == self.codes@.len(),
                forall|j: int| 0 <= j < i ==> self.codes@[j].code_hash@ != h@,
        {
            if str_eq(self.codes[i].code_hash.as_str(), h) {
                return true;
            }
        }
        false
    }

    /// Marks the single code row with this id as used at `now`.
    pub fn mark_code_used(&mut self, code_id: i64, now: i64)
        requires
            old(self).well_formed(),
            1 <= code_id <= old(self).codes@.len(),
        ensures
            final(self).well_formed(),
            final(self).users@ == old(self).users@,
            final(self).keys@ == old(self).keys@,
            final(self).codes@ =~= old(self).codes@.update(
                code_id - 1,
                used_code(old(self).codes@[code_id - 1], now),
            ),
    {
        let n = self.codes.len();
        proof {
            assert(code_id - 1 < n as int);
        }
        let idx = (code_id - 1) as usize;
        proof {
            assert(idx as int == code_id - 1);
        }
        self.codes[idx].used_at = Some(now);
    }
}

/// How many unrevoked keys carry this prefix.
pub open spec fn count_active_with_prefix(keys: Seq<ApiKey>, p: Seq<char>) -> nat
    decreases keys.len(),
{
    if keys.len() == 0 {
        0
    } else {
        count_active_with_prefix(keys.drop_last(), p) + (if keys.last().key_prefix@ == p
            && keys.last().revoked_at is None {
            1nat
        } else {
            0nat
        })
    }
}

/// Once the key row carrying a hash is revoked, no unrevoked row carries
/// that hash: a later validation of the same secret cannot succeed, even
/// though the row still exists.
pub proof fn lemma_revoked_key_never_validates(s: CredentialStore, i: int)
    requires
        s.well_formed(),
        0 <= i < s.keys@.len(),
        s.keys@[i].revoked_at is Some,
    ensures
        !has_active_key(s.keys@, s.keys@[i].key_hash@),
{
    assert forall|j: int|
        0 <= j < s.keys@.len() && s.keys@[j].key_hash@ == s.keys@[i].key_hash@ implies !(
    s.keys@[j].revoked_at is None) by {
        if j < i {
            assert(s.keys@[j].key_hash@ != s.keys@[i].key_hash@);
        } else if i < j {
            assert(s.keys@[i].key_hash@ != s.keys@[j].key_hash@);
        }
    }
}

/// Once the code row carrying a hash is used, no unused row carries that
/// hash: a second exchange of the same code cannot succeed.
pub proof fn lemma_used_code_never_exchanges(s: CredentialStore, i: int)
    requires
        s.well_formed(),
        0 <= i < s.codes@.len(),
        s.codes@[i].used_at is Some,
    ensures
        !has_unused_code(s.codes@, s.codes@[i].code_hash@),
{
    assert forall|j: int|
        0 <= j < s.codes@.len() && s.codes@[j].code_hash@ == s.codes@[i].code_hash@ implies !(
    s.codes@[j].used_at is None) by {
        if j < i {
            assert(s.codes@[j].code_hash@ != s.codes@[i].code_hash@);
        } else if i < j {
            assert(s.codes@[i].code_hash@ != s.codes@[j].code_hash@);
        }
    }
}

/// The count of unrevoked keys with a prefix is positive exactly when such a
/// key exists.
pub proof fn lemma_count_active_pos(keys: Seq<ApiKey>, p: Seq<char>)
    ensures
        count_active_with_prefix(keys, p) > 0 <==> exists|i: int|
            0 <= i < keys.len() && keys[i].key_prefix@ == p && keys[i].revoked_at is None,
    decreases keys.len(),
{
    if keys.len() > 0 {
        lemma_count_active_pos(keys.drop_last(), p);
        if keys.last().key_prefix@ == p && keys.last().revoked_at is None {
            assert(keys[keys.len() - 1].key_prefix@ == p);
        } else if exists|i: int|
            0 <= i < keys.len() && keys[i].key_prefix@ == p && keys[i].revoked_at is None {
            let i = choose|i: int|
                0 <= i < keys.len() && keys[i].key_prefix@ == p && keys[i].revoked_at is None;
            assert(keys.drop_last()[i] == keys[i]);
        }
    }
}

} // verus!
