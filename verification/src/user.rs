//! Local user accounts: profiles, salted password hashes and their checking,
//! and the rules a new account must meet.
//!
//! A stored hash is "salt:hex", the hex being the lowercase SHA-256 digest of
//! the UTF-8 bytes of "salt:password".
use vstd::prelude::*;
use crate::text;
use crate::error::AppError;
use sha2::Digest;

verus! {

/// A user as stored.
#[derive(Debug)]
pub struct UserRecord {
    pub id: String,
    pub username: String,
    pub password_hash: String,
    pub created_at: i64,
    pub display_name: Option<String>,
    pub avatar_key: Option<String>,
    pub avatar_public_id: Option<String>,
    pub avatar_url: Option<String>,
    pub avatar_version: Option<i64>,
    pub avatar_updated_at: Option<i64>,
}

/// A user as shown.
#[derive(Debug)]
pub struct UserProfile {
    pub id: String,
    pub username: String,
    pub created_at: i64,
    pub display_name: Option<String>,
    pub avatar_key: Option<String>,
    pub avatar_public_id: Option<String>,
    pub avatar_url: Option<String>,
    pub avatar_version: Option<i64>,
    pub avatar_updated_at: Option<i64>,
    pub avatar_data_url: Option<String>,
}

impl UserProfile {
    /// A profile without display name or avatar.
    pub fn new(id: String, username: String, created_at: i64) -> (p: UserProfile)
        ensures
            p.id == id,
            p.username == username,
            p.created_at == created_at,
            p.display_name is None,
            p.avatar_key is None,
            p.avatar_public_id is None,
            p.avatar_url is None,
            p.avatar_version is None,
            p.avatar_updated_at is None,
            p.avatar_data_url is None,
    {
        UserProfile {
            id,
            username,
            created_at,
            display_name: None,
            avatar_key: None,
            avatar_public_id: None,
            avatar_url: None,
            avatar_version: None,
            avatar_updated_at: None,
            avatar_data_url: None,
        }
    }

    /// The profile with its display name and avatar fields replaced.
    pub fn with_avatar(
        self,
        display_name: Option<String>,
        avatar_key: Option<String>,
        avatar_public_id: Option<String>,
        avatar_url: Option<String>,
        avatar_version: Option<i64>,
        avatar_updated_at: Option<i64>,
        avatar_data_url: Option<String>,
    ) -> (p: UserProfile)
        ensures
            p.id == self.id,
            p.username == self.username,
            p.created_at == self.created_at,
            p.display_name == display_name,
            p.avatar_key == avatar_key,
            p.avatar_public_id == avatar_public_id,
            p.avatar_url == avatar_url,
            p.avatar_version == avatar_version,
            p.avatar_updated_at == avatar_updated_at,
            p.avatar_data_url == avatar_data_url,
    {
        UserProfile {
            display_name,
            avatar_key,
            avatar_public_id,
            avatar_url,
            avatar_version,
            avatar_updated_at,
            avatar_data_url,
            ..self
        }
    }

    /// The profile of a stored user (no avatar image data).
    pub fn from_record(r: UserRecord) -> (p: UserProfile)
        ensures
            p.id == r.id,
            p.username == r.username,
            p.created_at == r.created_at,
            p.display_name == r.display_name,
            p.avatar_key == r.avatar_key,
            p.avatar_public_id == r.avatar_public_id,
            p.avatar_url == r.avatar_url,
            p.avatar_version == r.avatar_version,
            p.avatar_updated_at == r.avatar_updated_at,
            p.avatar_data_url is None,
    {
        UserProfile {
            id: r.id,
            username: r.username,
            created_at: r.created_at,
            display_name: r.display_name,
            avatar_key: r.avatar_key,
            avatar_public_id: r.avatar_public_id,
            avatar_url: r.avatar_url,
            avatar_version: r.avatar_version,
            avatar_updated_at: r.avatar_updated_at,
            avatar_data_url: None,
        }
    }
}

// ---------------------------------------------------------------- hashing

/// The SHA-256 digest of `data`.
pub uninterp spec fn sha256_of(data: Seq<u8>) -> Seq<u8>;

/// Calls `sha2::Sha256::digest` (through the `Digest` trait). Claimed: the
/// digest depends on `data` alone and is 32 bytes long (its output type is
/// a 32-byte array).
#[verifier::external_body]
fn sha256(data: &[u8]) -> (r: Vec<u8>)
    ensures
        r@ == sha256_of(data@),
        r@.len() == 32,
{
    sha2::Sha256::digest(data).to_vec()
}

/// The lowercase hexadecimal digit of a value below 16.
pub open spec fn lower_hex_digit(n: u8) -> char {
    if n < 10 {
        ((48 + n) as u8) as char
    } else {
        ((87 + n) as u8) as char
    }
}

/// Bytes written as two lowercase hexadecimal digits each.
pub open spec fn lower_hex(bytes: Seq<u8>) -> Seq<char>
    decreases bytes.len(),
{
    if bytes.len() == 0 {
        Seq::empty()
    } else {
        lower_hex(bytes.drop_last()) + seq![lower_hex_digit(bytes.last() / 16), lower_hex_digit(bytes.last() % 16)]
    }
}

/// The stored hash of `password` under `salt`.
pub open spec fn password_hash_of(password: Seq<char>, salt: Seq<char>) -> Seq<char> {
    salt + ":"@ + lower_hex(
        sha256_of(vstd::utf8::encode_utf8(salt) + seq![58u8] + vstd::utf8::encode_utf8(password)),
    )
}

/// Whether `password` matches the stored hash: it splits at `:` into exactly
/// two parts, and hashing the password under the first gives it back.
pub open spec fn password_matches(password: Seq<char>, stored: Seq<char>) -> bool {
    let parts = text::split_on(stored, seq![':']);
    parts.len() == 2 && password_hash_of(password, parts[0]) == stored
}

fn lower_hex_digit_exec(n: u8) -> (c: char)
    requires
        n < 16,
    ensures
        c == lower_hex_digit(n),
{
    if n < 10 {
        (48 + n) as char
    } else {
        (87 + n) as char
    }
}

fn lower_hex_exec(bytes: &Vec<u8>) -> (r: Vec<char>)
    ensures
        r@ == lower_hex(bytes@),
{
    let mut out: Vec<char> = Vec::new();
    let mut i: usize = 0;
    while i < bytes.len()
        invariant
            i <= bytes.len(),
            out@ == lower_hex(bytes@.take(i as int)),
        decreases bytes.len() - i,
    {
        let b = bytes[i];
        assert(bytes@.take(i + 1).drop_last() =~= bytes@.take(i as int));
        let ghost before = out@;
        out.push(lower_hex_digit_exec(b / 16));
        out.push(lower_hex_digit_exec(b % 16));
        assert(out@ =~= before + seq![lower_hex_digit(b / 16), lower_hex_digit(b % 16)]);
        i = i + 1;
    }
    assert(bytes@.take(bytes.len() as int) =~= bytes@);
    out
}

fn push_bytes(v: &mut Vec<u8>, s: &[u8])
    ensures
        final(v)@ == old(v)@ + s@,
{
    let mut i: usize = 0;
    while i < s.len()
        invariant
            i <= s.len(),
            v@ == old(v)@ + s@.take(i as int),
        decreases s.len() - i,
    {
        v.push(s[i]);
        i = i + 1;
        assert(old(v)@ + s@.take(i as int) =~= (old(v)@ + s@.take(i - 1)).push(s@[i - 1]));
    }
    assert(s@.take(s.len() as int) =~= s@);
}

/// The salted hash of a password: "salt:" and the lowercase hex SHA-256 of
/// the bytes of "salt:password".
pub fn hash_password(password: &str, salt: &str) -> (r: String)
    ensures
        r@ == password_hash_of(password@, salt@),
{
    let mut data: Vec<u8> = Vec::new();
    push_bytes(&mut data, salt.as_bytes());
    data.push(58u8);
    push_bytes(&mut data, password.as_bytes());
    assert(data@ =~= vstd::utf8::encode_utf8(salt@) + seq![58u8] + vstd::utf8::encode_utf8(password@));
    let digest = sha256(data.as_slice());
    let hex = lower_hex_exec(&digest);
    let hs = text::string_of(&hex);
    text::concat3(salt, ":", hs.as_str())
}

/// Whether `password` matches the stored hash.
pub fn verify_password(password: &str, stored_hash: &str) -> (b: bool)
    ensures
        b == password_matches(password@, stored_hash@),
{
    let sv = text::chars_of(stored_hash);
    let colon: Vec<char> = vec![':'];
    assert(colon@ =~= seq![':']);
    let parts = text::split_on_exec(&sv, &colon);
    if parts.len() != 2 {
        return false;
    }
    assert(text::views(parts@)[0] == parts@[0]@);
    let salt = text::string_of(&parts[0]);
    let computed = hash_password(password, salt.as_str());
    text::str_eq(computed.as_str(), stored_hash)
}

// ---------------------------------------------------------------- the law

proof fn lemma_find_single_from(h: Seq<char>, c: char, i: int, k: int)
    requires
        0 <= i <= k < h.len(),
        h[k] == c,
        forall|j: int| i <= j < k ==> h[j] != c,
    ensures
        text::find_from(h, seq![c], i) == Some(k),
    decreases k - i,
{
    if h[i] == c {
        assert(h.subrange(i, i + 1) =~= seq![c]);
    } else {
        assert(h.subrange(i, i + 1)[0] != seq![c][0]);
        lemma_find_single_from(h, c, i + 1, k);
    }
}

proof fn lemma_find_single_none(h: Seq<char>, c: char, i: int)
    requires
        0 <= i,
        forall|j: int| i <= j < h.len() ==> h[j] != c,
    ensures
        text::find_from(h, seq![c], i) is None,
    decreases h.len() + 1 - i,
{
    if i + 1 <= h.len() {
        assert(h.subrange(i, i + 1)[0] != seq![c][0]);
        lemma_find_single_none(h, c, i + 1);
    }
}

proof fn lemma_lower_hex_digits(bytes: Seq<u8>)
    ensures
        forall|j: int| 0 <= j < lower_hex(bytes).len() ==> (#[trigger] lower_hex(bytes)[j]) != ':',
    decreases bytes.len(),
{
    if bytes.len() > 0 {
        lemma_lower_hex_digits(bytes.drop_last());
        let b = bytes.last();
        let hi = b / 16;
        let lo = b % 16;
        assert(lower_hex_digit(hi) != ':');
        assert(lower_hex_digit(lo) != ':');
        let prev = lower_hex(bytes.drop_last());
        assert forall|j: int| 0 <= j < lower_hex(bytes).len() implies (#[trigger] lower_hex(bytes)[j]) != ':' by {
            if j < prev.len() {
                assert(lower_hex(bytes)[j] == prev[j]);
            }
        }
    }
}

/// A password matches the hash made of it under any salt without `:`.
pub proof fn law_password_hash_verifies(password: Seq<char>, salt: Seq<char>)
    requires
        forall|j: int| 0 <= j < salt.len() ==> salt[j] != ':',
    ensures
        password_matches(password, password_hash_of(password, salt)),
{
    reveal_strlit(":");
    let stored = password_hash_of(password, salt);
    let hex = lower_hex(
        sha256_of(vstd::utf8::encode_utf8(salt) + seq![58u8] + vstd::utf8::encode_utf8(password)),
    );
    assert(stored =~= salt + seq![':'] + hex);
    let k = salt.len() as int;
    assert(stored[k] == ':');
    assert forall|j: int| 0 <= j < k implies stored[j] != ':' by {
        assert(stored[j] == salt[j]);
    }
    lemma_find_single_from(stored, ':', 0, k);
    text::lemma_find_bounds(stored, seq![':'], 0);
    assert(stored.take(k) =~= salt);
    assert(stored.skip(k + 1) =~= hex);
    lemma_lower_hex_digits(
        sha256_of(vstd::utf8::encode_utf8(salt) + seq![58u8] + vstd::utf8::encode_utf8(password)),
    );
    lemma_find_single_none(hex, ':', 0);
    assert(text::split_on(hex, seq![':']) =~= seq![hex]);
    assert(text::split_on(stored, seq![':']) =~= seq![salt] + seq![hex]);
}

// ---------------------------------------------------------------- accounts

/// The outcome of checking a new local account: the trimmed user name, or
/// the validation error.
pub open spec fn new_account_check(username: Seq<char>, password: Seq<char>) -> Result<Seq<char>, Seq<char>> {
    let name = text::trim(username);
    if name.len() == 0 {
        Err("Username cannot be empty"@)
    } else if text::utf8_byte_len(password) < 3 {
        Err("Password must be at least 3 characters"@)
    } else {
        Ok(name)
    }
}

/// Checks a new local account: a nonblank user name (trimmed) and a
/// password of at least 3 bytes.
pub fn check_new_account(username: &str, password: &str) -> (r: Result<String, AppError>)
    ensures
        match r {
            Ok(n) => new_account_check(username@, password@) == Ok::<Seq<char>, Seq<char>>(n@),
            Err(e) => e matches AppError::Validation(m) && new_account_check(username@, password@)
                == Err::<Seq<char>, Seq<char>>(m@),
        },
{
    let name = text::trim_str(username);
    if name.len() == 0 {
        return Err(AppError::validation("Username cannot be empty"));
    }
    let pv = text::chars_of(password);
    if text::utf8_byte_len_exec(&pv) < 3 {
        return Err(AppError::validation("Password must be at least 3 characters"));
    }
    Ok(text::string_of(&name))
}

/// The salt made of a random UUID text: the text without its hyphens.
pub fn salt_from_uuid(uuid_text: &str) -> (r: String)
    ensures
        r@ == text::replace_all(uuid_text@, seq!['-'], Seq::empty()),
{
    let v = text::chars_of(uuid_text);
    let dash: Vec<char> = vec!['-'];
    let none: Vec<char> = Vec::new();
    assert(dash@ =~= seq!['-']);
    assert(none@ =~= Seq::<char>::empty());
    let r = text::replace_all_exec(&v, &dash, &none);
    text::string_of(&r)
}

} // verus!
