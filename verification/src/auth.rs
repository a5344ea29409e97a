//! Captive-portal authentication: per-client challenges, the SHA-256
//! challenge response, password hashing, and the service's records.

use crate::command::{concat, owned};
use crate::pairs::{
    keys_unique, lemma_lookup_is_map, lemma_map_update, lookup_last, pairs_map,
    pairs_view, position_of,
};
use crate::text::{hex2, push_hex2};
use argon2::{Argon2, PasswordHasher, PasswordVerifier};
use password_hash::{PasswordHash, SaltString};
use rand_core::OsRng;
use sha2::{Digest, Sha256};
use vstd::prelude::*;

verus! {

broadcast use vstd::string::group_string_axioms;

/// The SHA-256 digest of `data`.
pub uninterp spec fn sha256_of(data: Seq<u8>) -> Seq<u8>;

/// Trusted: calls `sha2::Sha256::new`, `update` and `finalize`, which
/// compute the SHA-256 digest of the data: thirty-two bytes that depend on
/// the data alone.
#[verifier::external_body]
fn sha256_digest(data: &[u8]) -> (d: Vec<u8>)
    ensures
        d@ == sha256_of(data@),
        d@.len() == 32,
{
    let mut hasher = Sha256::new();
    hasher.update(data);
    hasher.finalize().to_vec()
}

/// Bytes written as lowercase hexadecimal, two digits per byte.
pub open spec fn hex_lower(b: Seq<u8>) -> Seq<char>
    decreases b.len(),
{
    if b.len() == 0 {
        Seq::empty()
    } else {
        hex_lower(b.drop_last()) + hex2(b.last())
    }
}

/// The hex text of the SHA-256 digest of the UTF-8 bytes of `s`.
pub open spec fn sha256_hex(s: Seq<char>) -> Seq<char> {
    hex_lower(sha256_of(vstd::utf8::encode_utf8(s)))
}

/// Writes bytes as lowercase hexadecimal.
pub fn to_hex_lower(b: &[u8]) -> (s: String)
    ensures
        s@ == hex_lower(b@),
{
    let mut s = String::new();
    let mut i: usize = 0;
    while i < b.len()
        invariant
            i <= b@.len(),
            s@ == hex_lower(b@.take(i as int)),
        decreases b@.len() - i,
    {
        push_hex2(&mut s, b[i]);
        proof {
            assert(b@.take(i + 1).drop_last() =~= b@.take(i as int));
        }
        i = i + 1;
    }
    assert(b@.take(b@.len() as int) =~= b@);
    s
}

/// Two hex digits per byte.
pub proof fn lemma_hex_lower_len(b: Seq<u8>)
    ensures
        hex_lower(b).len() == 2 * b.len(),
    decreases b.len(),
{
    if b.len() > 0 {
        lemma_hex_lower_len(b.drop_last());
    }
}

/// The SHA-256 digest of `input`'s UTF-8 bytes, in lowercase hex (64
/// digits).
pub fn sha256(input: String) -> (h: String)
    ensures
        h@ == sha256_hex(input@),
        h@.len() == 64,
{
    let digest = sha256_digest(input.as_str().as_bytes());
    proof {
        lemma_hex_lower_len(digest@);
    }
    to_hex_lower(digest.as_slice())
}

/// The response a client must send for `challenge` when its stored
/// password is `password_db`: the hex SHA-256 of the two texts joined.
pub open spec fn expected_response(password_db: Seq<char>, challenge: Seq<char>) -> Seq<char> {
    sha256_hex(password_db + challenge)
}

/// Whether `password` answers `challenge` for the stored password
/// `password_db`.
pub fn response_matches(password_db: &str, challenge: &str, password: &str) -> (ok: bool)
    ensures
        ok == (password@ == expected_response(password_db@, challenge@)),
{
    let expected = sha256(concat(password_db, challenge));
    let given = owned(password);
    expected == given
}

/// The challenges issued, by client IP (as text); a client holds at most
/// one, the last issued.
pub struct ChallengeStore {
    entries: Vec<(String, String)>,
}

impl View for ChallengeStore {
    type V = Map<Seq<char>, Seq<char>>;

    closed spec fn view(&self) -> Map<Seq<char>, Seq<char>> {
        pairs_map(pairs_view(self.entries@))
    }
}

impl ChallengeStore {
    /// The store's own consistency: one entry per client.
    #[verifier::type_invariant]
    closed spec fn wf(&self) -> bool {
        keys_unique(pairs_view(self.entries@))
    }

    /// An empty store.
    pub fn new() -> (s: Self)
        ensures
            s@ == Map::<Seq<char>, Seq<char>>::empty(),
    {
        let s = ChallengeStore { entries: Vec::new() };
        assert(pairs_view(s.entries@) =~= Seq::empty());
        s
    }

    /// Records `challenge` as the one `ip` must answer, replacing an older
    /// one.
    pub fn insert(&mut self, ip: String, challenge: String)
        ensures
            final(self)@ == old(self)@.insert(ip@, challenge@),
    {
        proof {
            use_type_invariant(&*self);
        }
        let ghost before = pairs_view(self.entries@);
        let mut entries: Vec<(String, String)> = Vec::new();
        std::mem::swap(&mut entries, &mut self.entries);
        assert(pairs_view(entries@) == before);
        match position_of(&entries, ip.as_str()) {
            Some(i) => {
                let ghost k = ip@;
                entries.set(i, (ip, challenge));
                proof {
                    let after = pairs_view(entries@);
                    assert(after =~= before.update(i as int, (k, challenge@)));
                    lemma_map_update(before, i as int, k, challenge@);
                    assert forall|a: int, b: int|
                        0 <= a < after.len() && 0 <= b < after.len() && a != b implies after[a].0
                        != after[b].0 by {
                        assert(after[a].0 == before[a].0 && after[b].0 == before[b].0);
                    }
                }
            },
            None => {
                let ghost k = ip@;
                entries.push((ip, challenge));
                proof {
                    let after = pairs_view(entries@);
                    assert(after =~= before.push((k, challenge@)));
                    assert(after.drop_last() =~= before);
                    assert forall|a: int, b: int|
                        0 <= a < after.len() && 0 <= b < after.len() && a != b implies after[a].0
                        != after[b].0 by {
                        if a < before.len() && b < before.len() {
                            assert(after[a] == before[a] && after[b] == before[b]);
                        } else if a < before.len() {
                            assert(after[a] == before[a]);
                        } else {
                            assert(after[b] == before[b]);
                        }
                    }
                }
            },
        }
        self.entries = entries;
    }

    /// The challenge `ip` must answer, if one was issued.
    pub fn get(&self, ip: &str) -> (r: Option<String>)
        ensures
            r.deep_view() == (if self@.contains_key(ip@) {
                Some(self@[ip@])
            } else {
                None
            }),
    {
        proof {
            lemma_lookup_is_map(pairs_view(self.entries@), ip@);
        }
        lookup_last(&self.entries, ip)
    }

    /// Issues a fresh random challenge to `ip` and returns it.
    pub fn issue(&mut self, ip: String) -> (challenge: String)
        ensures
            is_uuid_v4_text(challenge@),
            final(self)@ == old(self)@.insert(ip@, challenge@),
    {
        let challenge = new_challenge();
        self.insert(ip, challenge.clone());
        challenge
    }
}

/// A challenge handed out, and the client IP it was handed to.
#[derive(Debug, Clone)]
pub struct ChallengeReply {
    pub challenge: String,
    pub ip: String,
}

/// Hands the client at `ip` a fresh challenge, which from now on is the one
/// its validation requests are checked against.
pub fn get_challenge(store: &mut ChallengeStore, ip: String) -> (reply: ChallengeReply)
    ensures
        reply.ip@ == ip@,
        is_uuid_v4_text(reply.challenge@),
        final(store)@ == old(store)@.insert(ip@, reply.challenge@),
{
    let challenge = store.issue(ip.clone());
    ChallengeReply { challenge, ip }
}

/// A lowercase hexadecimal digit.
pub open spec fn is_lower_hex_char(c: char) -> bool {
    (48 <= c as u32 <= 57) || (97 <= c as u32 <= 102)
}

/// The hyphenated lowercase text of a version-4 UUID: 36 characters, hyphens
/// at positions 8, 13, 18 and 23 and lowercase hex digits elsewhere, the
/// version digit `4` at position 14, and the variant digit (`8`, `9`, `a` or
/// `b`) at position 19.
pub open spec fn is_uuid_v4_text(s: Seq<char>) -> bool {
    &&& s.len() == 36
    &&& forall|i: int|
        0 <= i < 36 ==> if i == 8 || i == 13 || i == 18 || i == 23 {
            #[trigger] s[i] == '-'
        } else {
            is_lower_hex_char(s[i])
        }
    &&& s[14] == '4'
    &&& (s[19] == '8' || s[19] == '9' || s[19] == 'a' || s[19] == 'b')
}

/// A fresh random UUID (version 4), in hyphenated text form.
///
/// Trusted: calls `uuid::Uuid::new_v4`, which sets the version bits to 4
/// and the variant bits to `10`, and formats it with `Display`, which writes
/// the hyphenated lowercase form. The value is random; only its shape is
/// claimed.
#[verifier::external_body]
fn new_challenge() -> (c: String)
    ensures
        is_uuid_v4_text(c@),
{
    uuid::Uuid::new_v4().to_string()
}

/// The outcome of a validation request.
#[derive(Debug, PartialEq, Eq, Clone)]
pub enum ValidationReply {
    /// No challenge was issued to the client.
    NoChallenge,
    /// The response was checked; whether it matched.
    Checked(bool),
}

/// The first step of a validation request.
#[derive(Debug, Clone)]
pub enum ValidationStep {
    /// Answer at once, without looking the user up.
    Answer(ValidationReply),
    /// Look the user's stored password up, then check the response against
    /// this challenge with [`validate_user`].
    CheckAgainst(String),
}

/// Starts a validation request from `ip`: a client that was issued no
/// challenge is answered `no_challenge` at once, without looking the user
/// up; otherwise its response is to be checked against the challenge it
/// was issued last.
pub fn begin_validation(store: &ChallengeStore, ip: &str) -> (step: ValidationStep)
    ensures
        !store@.contains_key(ip@) ==> step == ValidationStep::Answer(ValidationReply::NoChallenge),
        store@.contains_key(ip@) ==> (step matches ValidationStep::CheckAgainst(c) && c@
            == store@[ip@]),
{
    match store.get(ip) {
        Some(c) => ValidationStep::CheckAgainst(c),
        None => ValidationStep::Answer(ValidationReply::NoChallenge),
    }
}

/// Checks the response `password` of a client that was issued `challenge`,
/// against the user's stored password `password_db`.
pub fn validate_user(password_db: &str, challenge: &str, password: &str) -> (reply: ValidationReply)
    ensures
        reply == ValidationReply::Checked(
            password@ == expected_response(password_db@, challenge@),
        ),
{
    ValidationReply::Checked(response_matches(password_db, challenge, password))
}

/// A client is checked against the challenge it was issued last: once
/// `challenge` is issued to `ip`, the challenge found for `ip` is
/// `challenge` (so a response is accepted exactly when it is the hex
/// SHA-256 of the stored password followed by `challenge`), and the
/// challenges of all other clients are as they were.
pub proof fn law_issued_challenge_is_checked(
    store: Map<Seq<char>, Seq<char>>,
    ip: Seq<char>,
    challenge: Seq<char>,
    other: Seq<char>,
)
    requires
        other != ip,
    ensures
        store.insert(ip, challenge).contains_key(ip),
        store.insert(ip, challenge)[ip] == challenge,
        store.insert(ip, challenge).contains_key(other) == store.contains_key(other),
        store.contains_key(other) ==> store.insert(ip, challenge)[other] == store[other],
{
}

/// The Argon2id password-hash string (PHC format) of `password` with the
/// base-64 salt `salt`, or `None` when `salt` is no valid salt.
pub uninterp spec fn argon2_phc(password: Seq<u8>, salt: Seq<char>) -> Option<Seq<char>>;

/// A character that a PHC salt may hold: `[a-zA-Z0-9/+.-]`.
pub open spec fn is_phc_salt_char(c: char) -> bool {
    ||| 65 <= c as u32 <= 90
    ||| 97 <= c as u32 <= 122
    ||| 48 <= c as u32 <= 57
    ||| c == '/' || c == '+' || c == '.' || c == '-'
}

/// A salt text that `SaltString::from_b64` takes: 4 to 64 characters, each
/// one that a PHC salt may hold.
pub open spec fn is_phc_salt_text(s: Seq<char>) -> bool {
    &&& 4 <= s.len() <= 64
    &&& forall|i: int| 0 <= i < s.len() ==> is_phc_salt_char(#[trigger] s[i])
}

/// A character of the standard base-64 alphabet: `[A-Za-z0-9+/]`.
pub open spec fn is_b64_char(c: char) -> bool {
    ||| 65 <= c as u32 <= 90
    ||| 97 <= c as u32 <= 122
    ||| 48 <= c as u32 <= 57
    ||| c == '+' || c == '/'
}

/// The unpadded base-64 text of 16 bytes: 22 characters of the alphabet,
/// the last of which carries two bits of data and four zero bits (`A`, `Q`,
/// `g` or `w`).
pub open spec fn is_fresh_salt_text(s: Seq<char>) -> bool {
    &&& s.len() == 22
    &&& forall|i: int| 0 <= i < 22 ==> is_b64_char(#[trigger] s[i])
    &&& (s[21] == 'A' || s[21] == 'Q' || s[21] == 'g' || s[21] == 'w')
}

/// A fresh random salt, in base 64.
///
/// Trusted: calls `password_hash::SaltString::generate` with `OsRng`, which
/// fills 16 random bytes and writes them in unpadded standard base 64:
/// 22 characters, the last holding the final two bits followed by zeros.
/// The value is random; only its shape is claimed.
#[verifier::external_body]
fn random_salt() -> (s: String)
    ensures
        is_fresh_salt_text(s@),
{
    SaltString::generate(&mut OsRng).as_str().to_owned()
}

/// Trusted: calls `SaltString::from_b64`, then `Argon2::default()` and its
/// `hash_password`, and writes the hash in PHC form. Default Argon2 is
/// deterministic for a given password and salt. The PHC text it writes
/// parses back with `PasswordHash::new`, and `verify_password`, which
/// recomputes the hash with the salt and parameters the text holds, accepts
/// the same password for it. `from_b64` refuses a salt of fewer than 4 or
/// more than 64 characters, or with a character outside `[a-zA-Z0-9/+.-]`.
/// The hash succeeds for the base-64 text of 16 bytes (it decodes to 16
/// bytes, above Argon2's minimum of 8) and a password of at most
/// `MAX_PWD_LEN` (`0xFFFF_FFFF`) bytes; default Argon2 has no other failing
/// check. On failure the error's text is handed back; nothing is claimed of
/// it.
#[verifier::external_body]
fn argon2_hash(password: &[u8], salt: &str) -> (r: Result<String, String>)
    ensures
        r is Ok <==> argon2_phc(password@, salt@) is Some,
        r matches Ok(h) ==> argon2_phc(password@, salt@) == Some(h@),
        r matches Ok(h) ==> phc_parses(h@) && argon2_accepts(password@, h@),
        r is Ok ==> is_phc_salt_text(salt@),
        is_fresh_salt_text(salt@) && password@.len() <= 0xFFFF_FFFF ==> r is Ok,
{
    match SaltString::from_b64(salt) {
        Ok(s) => match Argon2::default().hash_password(password, &s) {
            Ok(h) => Ok(h.to_string()),
            Err(e) => Err(e.to_string()),
        },
        Err(e) => Err(e.to_string()),
    }
}

/// What hashing `password` with `salt` gives: the PHC string, or the
/// error text of the hasher behind `Error al hashear: `. Only a salt that
/// `from_b64` takes can succeed, and the base-64 text of 16 bytes always
/// does, for a password of at most `0xFFFF_FFFF` bytes.
pub open spec fn hash_outcome(password: Seq<char>, salt: Seq<char>, r: Result<String, String>) -> bool {
    let phc = argon2_phc(vstd::utf8::encode_utf8(password), salt);
    &&& r is Ok <==> phc is Some
    &&& r matches Ok(h) ==> phc == Some(h@)
    &&& r matches Ok(h) ==> phc_parses(h@) && argon2_accepts(
        vstd::utf8::encode_utf8(password),
        h@,
    )
    &&& r is Ok ==> is_phc_salt_text(salt)
    &&& is_fresh_salt_text(salt) && vstd::utf8::encode_utf8(password).len() <= 0xFFFF_FFFF
        ==> r is Ok
    &&& r matches Err(e) ==> exists|why: Seq<char>| e@ == "Error al hashear: "@ + why
}

/// Hashes a password with Argon2 and the given base-64 salt.
pub fn hash_password_with_salt(password: &str, salt: &str) -> (r: Result<String, String>)
    ensures
        hash_outcome(password@, salt@, r),
{
    match argon2_hash(password.as_bytes(), salt) {
        Ok(h) => Ok(h),
        Err(why) => Err(concat("Error al hashear: ", why.as_str())),
    }
}

/// Hashes a password with Argon2 and a fresh random salt.
pub fn _hash_password(password: &str) -> (r: Result<String, String>)
    ensures
        exists|salt: Seq<char>| is_fresh_salt_text(salt) && hash_outcome(password@, salt, r),
        vstd::utf8::encode_utf8(password@).len() <= 0xFFFF_FFFF ==> r is Ok,
{
    let salt = random_salt();
    hash_password_with_salt(password, salt.as_str())
}

/// Whether `stored` parses as a PHC password-hash string.
pub uninterp spec fn phc_parses(stored: Seq<char>) -> bool;

/// Whether Argon2 accepts `password` for the parsed hash `stored`.
pub uninterp spec fn argon2_accepts(password: Seq<u8>, stored: Seq<char>) -> bool;

/// Trusted: calls `password_hash::PasswordHash::new`, which parses a PHC
/// string; whether it succeeds depends on the text alone.
#[verifier::external_body]
fn parse_phc(stored: &str) -> (ok: bool)
    ensures
        ok == phc_parses(stored@),
{
    PasswordHash::new(stored).is_ok()
}

/// Trusted: parses `stored` with `PasswordHash::new` (which the caller has
/// seen succeed) and calls `Argon2::default().verify_password`; whether it
/// accepts depends on the password and the stored text alone.
#[verifier::external_body]
fn argon2_verify(password: &[u8], stored: &str) -> (ok: bool)
    requires
        phc_parses(stored@),
    ensures
        ok == argon2_accepts(password@, stored@),
{
    match PasswordHash::new(stored) {
        Ok(parsed) => Argon2::default().verify_password(password, &parsed).is_ok(),
        Err(_) => false,
    }
}

/// Checks a password against a stored Argon2 hash; a stored text that is no
/// valid hash accepts nothing.
pub fn _verify_password(password: &str, stored_hash: &str) -> (ok: bool)
    ensures
        ok == (phc_parses(stored_hash@) && argon2_accepts(
            vstd::utf8::encode_utf8(password@),
            stored_hash@,
        )),
{
    if !parse_phc(stored_hash) {
        return false;
    }
    argon2_verify(password.as_bytes(), stored_hash)
}

/// A password hashed by the library verifies: its hash text parses, and
/// [`_verify_password`] accepts the same password for it.
pub proof fn law_hash_then_verify(password: Seq<char>, salt: Seq<char>, r: Result<String, String>)
    requires
        hash_outcome(password, salt, r),
        r is Ok,
    ensures
        phc_parses(r->Ok_0@),
        argon2_accepts(vstd::utf8::encode_utf8(password), r->Ok_0@),
{
}

/// An error of the authentication service, answered with status 500.
#[derive(Debug)]
pub struct AppError {
    pub message: String,
}

/// The HTTP status of an internal error.
pub const INTERNAL_SERVER_ERROR: u16 = 500;

impl AppError {
    /// The status and body that answer this error.
    pub fn into_response(&self) -> (r: (u16, String))
        ensures
            r.0 == INTERNAL_SERVER_ERROR,
            r.1@ == "Error interno del servidor: "@ + self.message@,
    {
        (INTERNAL_SERVER_ERROR, concat("Error interno del servidor: ", self.message.as_str()))
    }
}

/// A user account of the captive portal.
#[derive(Debug, Clone)]
pub struct Account {
    pub id: i64,
    pub name: String,
    pub password: String,
    pub ip: Option<String>,
    pub mac: Option<String>,
    pub role: String,
}

/// A validation request body.
#[derive(Debug, Clone)]
pub struct Validation {
    pub user: String,
    pub secured_password: String,
}

/// The text of a request field, or the empty text where the request holds
/// no text under that field.
pub fn field_or_empty(field: Option<&str>) -> (s: String)
    ensures
        s@ == field_or_empty_text(field),
{
    match field {
        Some(f) => owned(f),
        None => owned(""),
    }
}

/// The account that a create-user request asks for.
#[derive(Debug, Clone)]
pub struct NewAccount {
    pub name: String,
    pub password: String,
    pub role: String,
}

/// The account that a create-user request with the given `username`,
/// `password` and `role` fields asks for; a missing field counts as empty.
/// The password is stored as given.
pub fn new_account_request(username: Option<&str>, password: Option<&str>, role: Option<&str>) -> (a: NewAccount)
    ensures
        a.name@ == field_or_empty_text(username),
        a.password@ == field_or_empty_text(password),
        a.role@ == field_or_empty_text(role),
{
    NewAccount {
        name: field_or_empty(username),
        password: field_or_empty(password),
        role: field_or_empty(role),
    }
}

/// The text of an optional request field, empty where it is missing.
pub open spec fn field_or_empty_text(field: Option<&str>) -> Seq<char> {
    match field {
        Some(f) => f@,
        None => ""@,
    }
}

/// Where the account database lives.
#[derive(Debug, Clone)]
pub struct DatabaseConfig {
    pub path: String,
}

/// The appliance-wide configuration.
#[derive(Debug, Clone)]
pub struct GlobalConfig {
    pub database: DatabaseConfig,
}

/// Where the configuration file is read from.
pub const CONFIG_PATH: &'static str = "/etc/NetHound.toml";

/// The SQLite URL of the account database.
pub fn database_url(config: &GlobalConfig) -> (url: String)
    ensures
        url@ == "sqlite:"@ + config.database.path@,
{
    concat("sqlite:", config.database.path.as_str())
}

} // verus!
