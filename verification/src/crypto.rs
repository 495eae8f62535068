//! Secret generation and hashing.
//!
//! Secrets are drawn from a 62-symbol alphanumeric alphabet with a
//! cryptographically secure random source. An API key has the shape
//! `sk_<8 chars>_<32 chars>` and an activation code the shape
//! `ac_<4>-<4>-<4>`; in both cases the exposed, non-secret prefix is the
//! leading fragment up to (and not including) the random remainder. Only the
//! SHA-256 hash of a full secret is ever stored durably.

use vstd::prelude::*;

verus! {

use vstd::string::*;

/// A byte of the secret alphabet: a lowercase letter, an uppercase letter or
/// a decimal digit.
pub open spec fn is_secret_byte(b: u8) -> bool {
    (97 <= b <= 122) || (65 <= b <= 90) || (48 <= b <= 57)
}

/// A character of the secret alphabet.
pub open spec fn is_secret_char(c: char) -> bool {
    (97 <= c as u32 <= 122) || (65 <= c as u32 <= 90) || (48 <= c as u32 <= 57)
}

/// The SHA-256 digest of a string's UTF-8 bytes, encoded as lowercase hex.
/// The digest is a pure function of the input characters; nothing further is
/// assumed about its value.
pub uninterp spec fn sha256_hex(s: Seq<char>) -> Seq<char>;

/// A lowercase hexadecimal digit.
pub open spec fn is_lower_hex_char(c: char) -> bool {
    (48 <= c as u32 <= 57) || (97 <= c as u32 <= 102)
}

/// Hashing is deterministic and stable: re-hashing the same string always
/// yields the same stored hash.
pub proof fn lemma_hash_deterministic(a: Seq<char>, b: Seq<char>)
    requires
        a == b,
    ensures
        sha256_hex(a) == sha256_hex(b),
{
}

/// Relies on sha2::Sha256 (via the digest traits) and hex::encode: the digest
/// of the input bytes is 32 bytes long and depends on the input alone, and
/// hex::encode renders each byte as exactly two lowercase hex digits.
#[verifier::external_body]
pub fn hash_key(key: &str) -> (r: String)
    ensures
        r@ == sha256_hex(key@),
        r@.len() == 64,
        forall|i: int| 0 <= i < r@.len() ==> is_lower_hex_char(#[trigger] r@[i]),
{
    let mut hasher = <sha2::Sha256 as sha2::Digest>::new();
    sha2::Digest::update(&mut hasher, key.as_bytes());
    hex::encode(sha2::Digest::finalize(hasher))
}

/// Relies on rand's thread-local cryptographically secure generator:
/// `random_range` over `0..n` returns a value below `n` (and panics only on
/// an empty range, which the precondition excludes).
#[verifier::external_body]
fn random_below(n: usize) -> (r: usize)
    requires
        n >= 1,
    ensures
        r < n,
{
    rand::RngExt::random_range(&mut rand::rng(), 0..n)
}

/// Relies on String::from_utf8: a vector of ASCII bytes decodes to the string
/// whose characters are exactly those bytes.
#[verifier::external_body]
pub(crate) fn ascii_string(bytes: Vec<u8>) -> (r: String)
    requires
        forall|i: int| 0 <= i < bytes@.len() ==> bytes@[i] < 128,
    ensures
        r@ == bytes@.map_values(|b: u8| b as char),
{
    String::from_utf8(bytes).unwrap_or_default()
}

/// The secret alphabet in its fixed order: lowercase letters, then uppercase
/// letters, then digits.
pub open spec fn secret_byte_at(i: int) -> u8 {
    if i < 26 {
        (97 + i) as u8
    } else if i < 52 {
        (65 + (i - 26)) as u8
    } else {
        (48 + (i - 52)) as u8
    }
}

/// The alphabet symbol at one index.
fn secret_byte(i: usize) -> (b: u8)
    requires
        i < 62,
    ensures
        b == secret_byte_at(i as int),
        is_secret_byte(b),
{
    if i < 26 {
        97 + i as u8
    } else if i < 52 {
        65 + (i as u8 - 26)
    } else {
        48 + (i as u8 - 52)
    }
}

/// A uniformly random string of `len` characters of the secret alphabet.
fn random_secret_part(len: usize) -> (r: String)
    ensures
        r@.len() == len,
        forall|i: int| 0 <= i < r@.len() ==> is_secret_char(#[trigger] r@[i]),
{
    let mut bytes: Vec<u8> = Vec::new();
    for k in 0..len
        invariant
            bytes@.len() == k,
            forall|i: int| 0 <= i < bytes@.len() ==> is_secret_byte(#[trigger] bytes@[i]),
    {
        let idx = random_below(62);
        bytes.push(secret_byte(idx));
    }
    let r = ascii_string(bytes);
    proof {
        assert(forall|i: int| 0 <= i < r@.len() ==> is_secret_char(#[trigger] r@[i]));
    }
    r
}

/// The shape of a full API key: `sk_`, an 8-character fragment that also ends
/// the prefix, `_`, and a 32-character random remainder.
pub open spec fn api_key_wf(s: Seq<char>) -> bool {
    &&& s.len() == 44
    &&& s.take(3) == "sk_"@
    &&& s[11] == '_'
    &&& forall|i: int| (3 <= i < 11 || 12 <= i < 44) ==> is_secret_char(#[trigger] s[i])
}

/// The exposed, non-secret prefix of a full API key.
pub open spec fn api_key_prefix_of(s: Seq<char>) -> Seq<char> {
    s.take(11)
}

/// The shape of a full activation code: `ac_` followed by three 4-character
/// groups separated by dashes.
pub open spec fn activation_code_wf(s: Seq<char>) -> bool {
    &&& s.len() == 17
    &&& s.take(3) == "ac_"@
    &&& s[7] == '-'
    &&& s[12] == '-'
    &&& forall|i: int| (3 <= i < 7 || 8 <= i < 12 || 13 <= i < 17) ==> is_secret_char(
        #[trigger] s[i],
    )
}

/// The exposed, non-secret prefix of a full activation code.
pub open spec fn activation_code_prefix_of(s: Seq<char>) -> Seq<char> {
    s.take(7)
}

/// A key's prefix is a strict prefix of the full key: it consists of the
/// key's first eleven characters, is shorter than the key, and therefore is
/// never the full secret itself.
pub proof fn lemma_api_key_prefix_strict(s: Seq<char>)
    requires
        api_key_wf(s),
    ensures
        api_key_prefix_of(s) == s.take(11),
        api_key_prefix_of(s).len() < s.len(),
        api_key_prefix_of(s) != s,
{
    assert(api_key_prefix_of(s).len() == 11);
}

/// A code's prefix is likewise a strict prefix of the full code.
pub proof fn lemma_activation_code_prefix_strict(s: Seq<char>)
    requires
        activation_code_wf(s),
    ensures
        activation_code_prefix_of(s) == s.take(7),
        activation_code_prefix_of(s).len() < s.len(),
        activation_code_prefix_of(s) != s,
{
    assert(activation_code_prefix_of(s).len() == 7);
}

/// A freshly generated API key: the full secret (shown to the caller exactly
/// once), its non-secret prefix, and the hash under which it is stored.
pub struct GeneratedKey {
    pub full_key: String,
    pub prefix: String,
    pub hash: String,
}

/// A freshly generated activation code with its prefix and stored hash.
pub struct GeneratedActivationCode {
    pub full_code: String,
    pub prefix: String,
    pub hash: String,
}

/// Generates a fresh API key `sk_<8 chars>_<32 chars>` together with its
/// prefix and its storage hash.
pub fn generate_key() -> (k: GeneratedKey)
    ensures
        api_key_wf(k.full_key@),
        k.prefix@ == api_key_prefix_of(k.full_key@),
        k.hash@ == sha256_hex(k.full_key@),
        k.hash@.len() == 64,
        k.hash@ != k.full_key@,
{
    let head = random_secret_part(8);
    let tail = random_secret_part(32);

    let mut full_key = "sk_".to_owned();
    full_key.append(head.as_str());
    let prefix = full_key.clone();
    full_key.append("_");
    full_key.append(tail.as_str());
    let hash = hash_key(full_key.as_str());
    proof {
        reveal_strlit("sk_");
        reveal_strlit("_");
        assert(full_key@ =~= "sk_"@ + head@ + "_"@ + tail@);
        assert(full_key@.take(3) =~= "sk_"@);
        assert(prefix@ =~= full_key@.take(11));
        assert(forall|i: int| 3 <= i < 11 ==> full_key@[i] == head@[i - 3]);
        assert(full_key@[11] == '_');
        assert(forall|i: int| 12 <= i < 44 ==> full_key@[i] == tail@[i - 12]);
    }
    GeneratedKey { full_key, prefix, hash }
}

/// Generates a fresh activation code `ac_<4>-<4>-<4>` together with its
/// prefix and its storage hash.
pub fn generate_activation_code() -> (c: GeneratedActivationCode)
    ensures
        activation_code_wf(c.full_code@),
        c.prefix@ == activation_code_prefix_of(c.full_code@),
        c.hash@ == sha256_hex(c.full_code@),
        c.hash@.len() == 64,
        c.hash@ != c.full_code@,
{
    let g1 = random_secret_part(4);
    let g2 = random_secret_part(4);
    let g3 = random_secret_part(4);

    let mut full_code = "ac_".to_owned();
    full_code.append(g1.as_str());
    let prefix = full_code.clone();
    full_code.append("-");
    full_code.append(g2.as_str());
    full_code.append("-");
    full_code.append(g3.as_str());
    let hash = hash_key(full_code.as_str());
    proof {
        reveal_strlit("ac_");
        reveal_strlit("-");
        assert(full_code@ =~= "ac_"@ + g1@ + "-"@ + g2@ + "-"@ + g3@);
        assert(full_code@.take(3) =~= "ac_"@);
        assert(prefix@ =~= full_code@.take(7));
        assert(forall|i: int| 3 <= i < 7 ==> full_code@[i] == g1@[i - 3]);
        assert(full_code@[7] == '-');
        assert(forall|i: int| 8 <= i < 12 ==> full_code@[i] == g2@[i - 8]);
        assert(full_code@[12] == '-');
        assert(forall|i: int| 13 <= i < 17 ==> full_code@[i] == g3@[i - 13]);
    }
    GeneratedActivationCode { full_code, prefix, hash }
}

} // verus!
