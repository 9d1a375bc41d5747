//! API keys and shortcut setup tokens: generating secrets, storing only
//! their bcrypt hashes, and finding the stored key a presented secret belongs
//! to.
use vstd::prelude::*;
use crate::text::{append_str, chars_of, opt_string_view, string_from_chars};

verus! {

broadcast use vstd::string::group_string_axioms;

/// Who owns a key or token being created.
pub struct ApiKeyOwner<'a> {
    pub sub: Option<&'a str>,
    pub display: &'a str,
}

/// The owner recorded with a shortcut setup token.
#[derive(Debug, Clone, PartialEq, Eq)]
pub struct ShortcutSetupOwner {
    pub sub: Option<String>,
    pub display: String,
}

/// An API key as listed on the settings page (never its secret).
#[derive(Debug, Clone)]
pub struct ApiKey {
    pub id: String,
    pub label: Option<String>,
    pub owner_sub: Option<String>,
    pub owner_display: Option<String>,
    pub created_at: String,
    pub last_used_at: Option<String>,
}

/// The key a presented secret was verified against.
#[derive(Debug, Clone)]
pub struct VerifiedApiKey {
    pub id: String,
    pub label: Option<String>,
    pub owner_sub: Option<String>,
    pub owner_display: Option<String>,
}

/// A stored key with its bcrypt hash, as read for verification.
pub struct StoredKey {
    pub id: String,
    pub key_hash: String,
    pub label: Option<String>,
    pub owner_sub: Option<String>,
    pub owner_display: Option<String>,
}

/// A stored, unexpired shortcut setup token with its bcrypt hash.
pub struct StoredSetupToken {
    pub id: String,
    pub token_hash: String,
    pub owner_sub: Option<String>,
    pub owner_display: String,
}

/// A fresh secret and the hash to store for it.
pub struct NewSecret {
    pub plaintext: String,
    pub hash: String,
}

/// Why a secret could not be made: the system gave no randomness, for the
/// secret itself or for the bcrypt salt.
#[derive(Debug, Clone, Copy, PartialEq, Eq, Structural)]
pub enum SecretError {
    Hashing,
}

/// How long a shortcut setup token stays valid, in seconds.
pub const SETUP_TOKEN_TTL_SECS: i64 = 600;

// ---------------------------------------------------------------------------
// Outside calls
// ---------------------------------------------------------------------------

#[verifier::external_type_specification]
#[verifier::external_body]
pub struct ExBcryptError(bcrypt::BcryptError);

/// The name of the result of `bcrypt::verify(password, hash)`, with an
/// error read as "does not match".
pub uninterp spec fn bcrypt_verifies(password: Seq<char>, hash: Seq<char>) -> bool;

pub open spec fn is_lower_hex(c: char) -> bool {
    ('0' <= c && c <= '9') || ('a' <= c && c <= 'f')
}

/// The textual form of a UUID: 36 characters, lowercase hex digits with
/// dashes at positions 8, 13, 18 and 23.
pub open spec fn is_uuid_text(s: Seq<char>) -> bool {
    &&& s.len() == 36
    &&& forall|i: int|
        0 <= i < 36 ==> if i == 8 || i == 13 || i == 18 || i == 23 {
            #[trigger] s[i] == '-'
        } else {
            is_lower_hex(s[i])
        }
}

/// Whether `password` matches the bcrypt `hash`.
///
/// Trusted: calls `bcrypt::verify` and reads an error (a malformed hash) as
/// `false`. The result is named, since it is a function of the two
/// arguments alone; the contract says nothing of how bcrypt computes it.
#[verifier::external_body]
fn bcrypt_verify(password: &str, hash: &str) -> (r: bool)
    ensures
        r == bcrypt_verifies(password@, hash@),
{
    bcrypt::verify(password, hash).unwrap_or(false)
}

/// A bcrypt hash of `password` at the crate's default cost, with a random
/// salt.
///
/// Trusted: calls `bcrypt::hash(password, DEFAULT_COST)`. The salt is random,
/// so the result is not named; the contract states what the crate's source
/// shows of every outcome: `bcrypt::verify` accepts the password against the
/// hash produced from it. An error (the system gives no randomness) is passed
/// on.
#[verifier::external_body]
fn bcrypt_hash(password: &str) -> (r: Result<String, bcrypt::BcryptError>)
    ensures
        r matches Ok(h) ==> bcrypt_verifies(password@, h@),
{
    bcrypt::hash(password, bcrypt::DEFAULT_COST)
}

/// The lowercase hex digit of a nibble `n < 16`.
pub open spec fn hex_digit(n: u8) -> char {
    if n < 10 {
        (48 + n) as char
    } else {
        (87 + n) as char
    }
}

/// The bytes of a version 4 UUID drawn as `b`: the high nibble of byte 6 set
/// to the version (4) and the two high bits of byte 8 to the RFC 4122
/// variant (`10`); every other bit is kept.
pub open spec fn uuid_v4_bytes(b: Seq<u8>) -> Seq<u8> {
    b.update(6, (b[6] & 0x0fu8) | 0x40u8).update(8, (b[8] & 0x3fu8) | 0x80u8)
}

/// How many of the dashes at 8, 13, 18 and 23 stand before position `i` of
/// the hyphenated form.
pub open spec fn dashes_before(i: int) -> int {
    (if i > 8 { 1int } else { 0 }) + (if i > 13 { 1int } else { 0 }) + (if i > 18 { 1int } else { 0 })
        + (if i > 23 { 1int } else { 0 })
}

/// Character `i` of the hyphenated form of the UUID bytes `u`: a dash at
/// 8, 13, 18 and 23, else the next of the 32 hex digits, high nibble first.
pub open spec fn hyphenated_char(u: Seq<u8>, i: int) -> char {
    if i == 8 || i == 13 || i == 18 || i == 23 {
        '-'
    } else {
        let j = i - dashes_before(i);
        if j % 2 == 0 {
            hex_digit(u[j / 2] >> 4u8)
        } else {
            hex_digit(u[j / 2] & 0x0fu8)
        }
    }
}

/// The text form of the version 4 UUID drawn as the 16 bytes `b`: lowercase
/// hex, hyphenated 8-4-4-4-12.
pub open spec fn uuid_v4_text(b: Seq<u8>) -> Seq<char> {
    Seq::new(36, |i: int| hyphenated_char(uuid_v4_bytes(b), i))
}

/// Every UUID text has the shape of one.
pub proof fn lemma_uuid_v4_text_shape(b: Seq<u8>)
    requires
        b.len() == 16,
    ensures
        is_uuid_text(uuid_v4_text(b)),
{
    let u = uuid_v4_bytes(b);
    assert forall|x: u8| #![trigger x >> 4u8] (x >> 4u8) < 16u8 by {
        assert((x >> 4u8) < 16u8) by (bit_vector);
    }
    assert forall|x: u8| #![trigger x & 0x0fu8] (x & 0x0fu8) < 16u8 by {
        assert((x & 0x0fu8) < 16u8) by (bit_vector);
    }
    let t = uuid_v4_text(b);
    assert forall|i: int| 0 <= i < 36 implies if i == 8 || i == 13 || i == 18 || i == 23 {
        #[trigger] t[i] == '-'
    } else {
        is_lower_hex(t[i])
    } by {
        if !(i == 8 || i == 13 || i == 18 || i == 23) {
            let j = i - dashes_before(i);
            assert(0 <= j < 32);
            let n = if j % 2 == 0 {
                u[j / 2] >> 4u8
            } else {
                u[j / 2] & 0x0fu8
            };
            assert(n < 16);
            assert(t[i] == hex_digit(n));
        }
    }
}

/// Sixteen bytes from the system's random source; `None` when the system
/// gives none.
///
/// Trusted: calls `getrandom::fill` on a 16-byte buffer and maps its error
/// to `None`. The bytes are random, so nothing is stated of them.
#[verifier::external_body]
fn random_bytes() -> (r: Option<[u8; 16]>) {
    let mut bytes = [0u8; 16];
    match getrandom::fill(&mut bytes) {
        Ok(()) => Some(bytes),
        Err(_) => None,
    }
}

/// The version 4 UUID made of `bytes`, in its hyphenated text form.
///
/// Trusted: calls `uuid::Builder::from_random_bytes(bytes).into_uuid()`,
/// which sets the version and variant bits and keeps the other bits, and
/// formats it with `to_string`, which the crate implements as the lowercase
/// hyphenated form; the contract states that text.
#[verifier::external_body]
fn uuid_from_random_bytes(bytes: [u8; 16]) -> (r: String)
    ensures
        r@ == uuid_v4_text(bytes@),
{
    uuid::Builder::from_random_bytes(bytes).into_uuid().to_string()
}

/// A random (version 4) UUID in its hyphenated text form; `None` when the
/// system gives no randomness.
fn new_uuid() -> (r: Option<String>)
    ensures
        r matches Some(s) ==> is_uuid_text(s@),
{
    match random_bytes() {
        Some(bytes) => {
            proof {
                lemma_uuid_v4_text_shape(bytes@);
            }
            Some(uuid_from_random_bytes(bytes))
        },
        None => None,
    }
}

// ---------------------------------------------------------------------------
// Secrets
// ---------------------------------------------------------------------------

/// The shape of a key or token secret: two UUIDs joined by a dash.
pub open spec fn is_secret_text(s: Seq<char>) -> bool {
    s.len() == 73 && is_uuid_text(s.take(36)) && s[36] == '-' && is_uuid_text(s.skip(37))
}

/// A secret made of two UUID texts: `a`, a dash, then `b`.
pub fn secret_from_uuids(a: &str, b: &str) -> (r: String)
    ensures
        r@ == a@ + "-"@ + b@,
{
    let mut v = chars_of(a);
    append_str(&mut v, "-");
    append_str(&mut v, b);
    string_from_chars(&v)
}

/// The secret made of two draws of sixteen random bytes: the UUID text of
/// the first draw, a dash, and the UUID text of the second.
pub fn secret_from_random_bytes(first: [u8; 16], second: [u8; 16]) -> (r: String)
    ensures
        r@ == uuid_v4_text(first@) + "-"@ + uuid_v4_text(second@),
        is_secret_text(r@),
{
    let a = uuid_from_random_bytes(first);
    let b = uuid_from_random_bytes(second);
    let r = secret_from_uuids(a.as_str(), b.as_str());
    proof {
        reveal_strlit("-");
        lemma_uuid_v4_text_shape(first@);
        lemma_uuid_v4_text_shape(second@);
        assert(r@.take(36) =~= a@);
        assert(r@.skip(37) =~= b@);
    }
    r
}

/// A fresh secret: the UUID texts of two separate draws from the system's
/// random source, joined by a dash; `None` when the system gives no
/// randomness.
pub fn new_secret_plaintext() -> (r: Option<String>)
    ensures
        r matches Some(s) ==> is_secret_text(s@) && exists|x: Seq<u8>, y: Seq<u8>|
            x.len() == 16 && y.len() == 16 && s@ == uuid_v4_text(x) + "-"@ + uuid_v4_text(y),
{
    let first = match random_bytes() {
        Some(b) => b,
        None => return None,
    };
    let second = match random_bytes() {
        Some(b) => b,
        None => return None,
    };
    let s = secret_from_random_bytes(first, second);
    assert(first@.len() == 16 && second@.len() == 16);
    Some(s)
}

/// A fresh secret and its bcrypt hash; the secret verifies against the hash.
/// Fails when the system gives no randomness, for the secret or the salt.
pub fn generate_secret() -> (r: Result<NewSecret, SecretError>)
    ensures
        r matches Ok(s) ==> is_secret_text(s.plaintext@) && bcrypt_verifies(
            s.plaintext@,
            s.hash@,
        ),
{
    let plaintext = match new_secret_plaintext() {
        Some(p) => p,
        None => return Err(SecretError::Hashing),
    };
    match bcrypt_hash(plaintext.as_str()) {
        Ok(hash) => Ok(NewSecret { plaintext, hash }),
        Err(_) => Err(SecretError::Hashing),
    }
}

/// A new API key: its row id, the secret handed to the user once, and the
/// hash that is stored in its place.
pub struct NewApiKey {
    pub id: String,
    pub plaintext: String,
    pub hash: String,
}

/// Makes a new API key: a random UUID as its id and a fresh secret with its
/// bcrypt hash. The secret is longer than twenty characters and verifies
/// against the hash.
pub fn generate() -> (r: Result<NewApiKey, SecretError>)
    ensures
        r matches Ok(k) ==> is_uuid_text(k.id@) && is_secret_text(k.plaintext@)
            && k.plaintext@.len() > 20 && bcrypt_verifies(k.plaintext@, k.hash@),
{
    let secret = match generate_secret() {
        Ok(s) => s,
        Err(e) => return Err(e),
    };
    match new_uuid() {
        Some(id) => Ok(NewApiKey { id, plaintext: secret.plaintext, hash: secret.hash }),
        None => Err(SecretError::Hashing),
    }
}

/// A new shortcut setup token, created at `created_at` (Unix seconds).
pub struct NewSetupToken {
    pub id: String,
    pub plaintext: String,
    pub hash: String,
    pub created_at: i64,
    pub expires_at: i64,
}

/// Makes a shortcut setup token at time `now`: a random UUID as its id, a
/// fresh secret with its bcrypt hash, and an expiry ten minutes later.
pub fn create_shortcut_setup_token(now: i64) -> (r: Result<NewSetupToken, SecretError>)
    requires
        now <= i64::MAX - SETUP_TOKEN_TTL_SECS,
    ensures
        r matches Ok(t) ==> is_uuid_text(t.id@) && is_secret_text(t.plaintext@)
            && bcrypt_verifies(t.plaintext@, t.hash@) && t.created_at == now && t.expires_at
            == now + SETUP_TOKEN_TTL_SECS,
{
    let secret = match generate_secret() {
        Ok(s) => s,
        Err(e) => return Err(e),
    };
    let id = match new_uuid() {
        Some(id) => id,
        None => return Err(SecretError::Hashing),
    };
    let expires_at = setup_token_expires_at(now);
    Ok(NewSetupToken { id, plaintext: secret.plaintext, hash: secret.hash, created_at: now, expires_at })
}

// ---------------------------------------------------------------------------
// Verification
// ---------------------------------------------------------------------------

/// Index of the first stored hash that `password` verifies against.
pub open spec fn first_match(password: Seq<char>, hashes: Seq<Seq<char>>) -> Option<int>
    decreases hashes.len(),
{
    if hashes.len() == 0 {
        None
    } else if bcrypt_verifies(password, hashes[0]) {
        Some(0)
    } else {
        match first_match(password, hashes.drop_first()) {
            Some(i) => Some(i + 1),
            None => None,
        }
    }
}

pub open spec fn key_hashes(keys: Seq<StoredKey>) -> Seq<Seq<char>> {
    keys.map_values(|k: StoredKey| k.key_hash@)
}

pub open spec fn token_hashes(tokens: Seq<StoredSetupToken>) -> Seq<Seq<char>> {
    tokens.map_values(|t: StoredSetupToken| t.token_hash@)
}

proof fn lemma_first_match_bounds(password: Seq<char>, hashes: Seq<Seq<char>>)
    ensures
        first_match(password, hashes) matches Some(i) ==> 0 <= i < hashes.len()
            && bcrypt_verifies(password, hashes[i]) && forall|j: int|
            0 <= j < i ==> !bcrypt_verifies(password, #[trigger] hashes[j]),
        first_match(password, hashes) is None ==> forall|j: int|
            0 <= j < hashes.len() ==> !bcrypt_verifies(password, #[trigger] hashes[j]),
    decreases hashes.len(),
{
    if hashes.len() > 0 && !bcrypt_verifies(password, hashes[0]) {
        let t = hashes.drop_first();
        lemma_first_match_bounds(password, t);
        assert forall|j: int| 1 <= j < hashes.len() implies hashes[j] == #[trigger] t[j - 1] by {}
        match first_match(password, t) {
            Some(k) => {
                assert(first_match(password, hashes) == Some(k + 1));
                assert(hashes[k + 1] == t[k]);
                assert forall|j: int| 0 <= j < k + 1 implies !bcrypt_verifies(
                    password,
                    #[trigger] hashes[j],
                ) by {
                    if j > 0 {
                        assert(hashes[j] == t[j - 1]);
                    }
                }
            },
            None => {
                assert(first_match(password, hashes) is None);
                assert forall|j: int| 0 <= j < hashes.len() implies !bcrypt_verifies(
                    password,
                    #[trigger] hashes[j],
                ) by {
                    if j > 0 {
                        assert(hashes[j] == t[j - 1]);
                    }
                }
            },
        }
    }
}

/// Index of the first position `i` in `hashes` that `password` verifies
/// against.
fn first_match_exec(password: &str, hashes: &Vec<String>) -> (r: Option<usize>)
    ensures
        r matches Some(i) ==> first_match(password@, hashes@.map_values(|h: String| h@)) == Some(
            i as int,
        ),
        r is None ==> first_match(password@, hashes@.map_values(|h: String| h@)) is None,
{
    let ghost hv = hashes@.map_values(|h: String| h@);
    proof {
        lemma_first_match_bounds(password@, hv);
    }
    let mut i: usize = 0;
    while i < hashes.len()
        invariant
            i <= hashes.len(),
            hv == hashes@.map_values(|h: String| h@),
            forall|j: int| 0 <= j < i ==> !bcrypt_verifies(password@, #[trigger] hv[j]),
        decreases hashes.len() - i,
    {
        if bcrypt_verify(password, hashes[i].as_str()) {
            proof {
                lemma_first_match_bounds(password@, hv);
                let f = first_match(password@, hv);
                assert(bcrypt_verifies(password@, hv[i as int]));
                if f is None {
                } else {
                    let k = f->0;
                    if k < i {
                    } else if k > i {
                    }
                }
            }
            return Some(i);
        }
        i = i + 1;
    }
    proof {
        lemma_first_match_bounds(password@, hv);
        let f = first_match(password@, hv);
        if f is Some {
            let k = f->0;
            assert(bcrypt_verifies(password@, hv[k]));
        }
    }
    None
}

/// The key a presented API key secret belongs to: the first stored key whose
/// hash the secret verifies against; `None` when none does.
pub fn find_verified_key(plaintext: &str, keys: Vec<StoredKey>) -> (r: Option<VerifiedApiKey>)
    ensures
        match first_match(plaintext@, key_hashes(keys@)) {
            Some(i) => r matches Some(v) && v.id@ == keys@[i].id@ && opt_string_view(v.label)
                == opt_string_view(keys@[i].label) && opt_string_view(v.owner_sub)
                == opt_string_view(keys@[i].owner_sub) && opt_string_view(v.owner_display)
                == opt_string_view(keys@[i].owner_display),
            None => r is None,
        },
{
    let mut hashes: Vec<String> = Vec::new();
    let mut i: usize = 0;
    while i < keys.len()
        invariant
            i <= keys.len(),
            hashes@.map_values(|h: String| h@) == key_hashes(keys@).take(i as int),
        decreases keys.len() - i,
    {
        let ghost before = hashes@.map_values(|h: String| h@);
        let h = keys[i].key_hash.clone();
        hashes.push(h);
        proof {
            assert(hashes@.map_values(|h: String| h@) =~= before.push(h@));
            assert(key_hashes(keys@).take(i + 1) =~= key_hashes(keys@).take(i as int).push(
                keys@[i as int].key_hash@,
            ));
        }
        i = i + 1;
    }
    assert(key_hashes(keys@).take(keys.len() as int) =~= key_hashes(keys@));
    proof {
        lemma_first_match_bounds(plaintext@, key_hashes(keys@));
    }
    match first_match_exec(plaintext, &hashes) {
        Some(j) => {
            let k = &keys[j];
            Some(
                VerifiedApiKey {
                    id: k.id.clone(),
                    label: k.label.clone(),
                    owner_sub: k.owner_sub.clone(),
                    owner_display: k.owner_display.clone(),
                },
            )
        },
        None => None,
    }
}

/// The setup token a presented secret belongs to: its id and owner, from the
/// first stored token whose hash the secret verifies against.
pub fn find_setup_token(plaintext: &str, tokens: Vec<StoredSetupToken>) -> (r: Option<(String, ShortcutSetupOwner)>)
    ensures
        match first_match(plaintext@, token_hashes(tokens@)) {
            Some(i) => r matches Some((id, o)) && id@ == tokens@[i].id@ && opt_string_view(o.sub)
                == opt_string_view(tokens@[i].owner_sub) && o.display@
                == tokens@[i].owner_display@,
            None => r is None,
        },
{
    let mut hashes: Vec<String> = Vec::new();
    let mut i: usize = 0;
    while i < tokens.len()
        invariant
            i <= tokens.len(),
            hashes@.map_values(|h: String| h@) == token_hashes(tokens@).take(i as int),
        decreases tokens.len() - i,
    {
        let ghost before = hashes@.map_values(|h: String| h@);
        let h = tokens[i].token_hash.clone();
        hashes.push(h);
        proof {
            assert(hashes@.map_values(|h: String| h@) =~= before.push(h@));
            assert(token_hashes(tokens@).take(i + 1) =~= token_hashes(tokens@).take(i as int).push(
                tokens@[i as int].token_hash@,
            ));
        }
        i = i + 1;
    }
    assert(token_hashes(tokens@).take(tokens.len() as int) =~= token_hashes(tokens@));
    proof {
        lemma_first_match_bounds(plaintext@, token_hashes(tokens@));
    }
    match first_match_exec(plaintext, &hashes) {
        Some(j) => {
            let t = &tokens[j];
            Some(
                (
                    t.id.clone(),
                    ShortcutSetupOwner { sub: t.owner_sub.clone(), display: t.owner_display.clone() },
                ),
            )
        },
        None => None,
    }
}

/// A matched setup token yields its owner only when deleting it removed
/// exactly one row; otherwise another request consumed it first.
pub fn consumed_setup_owner(found: Option<(String, ShortcutSetupOwner)>, rows_deleted: u64) -> (r: Option<ShortcutSetupOwner>)
    ensures
        r is Some <==> (found is Some && rows_deleted == 1),
        r matches Some(o) ==> (found matches Some((_, fo)) && o == fo),
{
    match found {
        Some((_, owner)) => if rows_deleted == 1 {
            Some(owner)
        } else {
            None
        },
        None => None,
    }
}

/// Expiry time of a setup token created at `now` (Unix seconds).
pub fn setup_token_expires_at(now: i64) -> (r: i64)
    requires
        now <= i64::MAX - SETUP_TOKEN_TTL_SECS,
    ensures
        r == now + SETUP_TOKEN_TTL_SECS,
{
    now + SETUP_TOKEN_TTL_SECS
}

/// A secret whose hash is stored is always recognized: verification finds a
/// key no later than the one stored with it.
pub proof fn lemma_stored_secret_is_found(password: Seq<char>, hashes: Seq<Seq<char>>, i: int)
    requires
        0 <= i < hashes.len(),
        bcrypt_verifies(password, hashes[i]),
    ensures
        first_match(password, hashes) matches Some(j) && j <= i,
{
    lemma_first_match_bounds(password, hashes);
    if first_match(password, hashes) is None {
        assert(!bcrypt_verifies(password, hashes[i]));
    }
}

/// A key just generated is the key its secret is verified as: when its hash
/// is stored at position `i` and no other stored hash accepts the secret,
/// verification picks exactly that stored key.
pub proof fn lemma_generated_key_is_found(secret: Seq<char>, keys: Seq<StoredKey>, i: int)
    requires
        0 <= i < keys.len(),
        bcrypt_verifies(secret, keys[i].key_hash@),
        forall|j: int|
            0 <= j < keys.len() && j != i ==> !bcrypt_verifies(secret, #[trigger] keys[j].key_hash@),
    ensures
        first_match(secret, key_hashes(keys)) == Some(i),
{
    let hs = key_hashes(keys);
    lemma_first_match_bounds(secret, hs);
    assert(hs[i] == keys[i].key_hash@);
    match first_match(secret, hs) {
        Some(k) => {
            assert(hs[k] == keys[k].key_hash@);
            if k != i {
                assert(!bcrypt_verifies(secret, keys[k].key_hash@));
            }
        },
        None => {
            assert(!bcrypt_verifies(secret, hs[i]));
        },
    }
}

/// A secret that no stored hash accepts is refused.
pub proof fn lemma_unknown_secret_is_refused(secret: Seq<char>, hashes: Seq<Seq<char>>)
    requires
        forall|j: int| 0 <= j < hashes.len() ==> !bcrypt_verifies(secret, #[trigger] hashes[j]),
    ensures
        first_match(secret, hashes) is None,
{
    lemma_first_match_bounds(secret, hashes);
    if let Some(k) = first_match(secret, hashes) {
        assert(bcrypt_verifies(secret, hashes[k]));
    }
}

} // verus!
