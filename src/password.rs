//! Salted Argon2 password hashing and verification.
use argon2::password_hash::rand_core::{OsRng, RngCore};
use argon2::password_hash::{Salt, SaltString};
use argon2::{Argon2, PasswordHash, PasswordHasher, PasswordVerifier};
use vstd::prelude::*;
use vstd::string::*;
use vstd::utf8::*;

verus! {

/// The unpadded B64 text of the salt bytes `salt`, as a PHC string carries it.
pub uninterp spec fn b64_salt_text(salt: Seq<u8>) -> Seq<char>;

/// The B64 text of the key that Argon2 (default parameters) derives from
/// `password` under the salt bytes `salt`.
pub uninterp spec fn argon2_output_b64(password: Seq<char>, salt: Seq<u8>) -> Seq<char>;

/// Whether Argon2 accepts `password` against the stored PHC string `hash`.
pub uninterp spec fn argon2_accepts(hash: Seq<char>, password: Seq<char>) -> bool;

/// Algorithm, version and cost fields that `Argon2::default()` writes before
/// the salt.
pub const ARGON2_PHC_PREFIX: &'static str = "$argon2id$v=19$m=19456,t=2,p=1$";

/// A PHC string with the default Argon2 parameters: parameters, salt text,
/// then the derived key, separated by `$`.
pub open spec fn phc_layout(salt_text: Seq<char>, output: Seq<char>) -> Seq<char> {
    ARGON2_PHC_PREFIX@ + salt_text + seq!['$'] + output
}

/// The PHC string for `password` under the salt bytes `salt`.
pub open spec fn argon2_phc_string(password: Seq<char>, salt: Seq<u8>) -> Seq<char> {
    phc_layout(b64_salt_text(salt), argon2_output_b64(password, salt))
}

/// Salt sizes, in bytes, that the hasher takes: Argon2's minimum of 8, and at
/// most 48, which fill the 64 B64 characters that a PHC salt may have.
pub open spec fn salt_length_ok(salt: Seq<u8>) -> bool {
    8 <= salt.len() <= 48
}

/// Passwords of at most `2^32 - 1` bytes, the most that Argon2 takes.
pub open spec fn password_length_ok(password: Seq<char>) -> bool {
    encode_utf8(password).len() <= 0xFFFF_FFFF
}

/// `s` begins with `prefix`.
pub open spec fn has_prefix(s: Seq<char>, prefix: Seq<char>) -> bool {
    prefix.len() <= s.len() && s.subrange(0, prefix.len() as int) == prefix
}

/// `hash` begins with the identifier of an Argon2 variant:
/// `$argon2d$`, `$argon2i$` or `$argon2id$`.
pub open spec fn argon2_family_shaped(hash: Seq<char>) -> bool {
    has_prefix(hash, seq!['$', 'a', 'r', 'g', 'o', 'n', '2', 'd', '$'])
        || has_prefix(hash, seq!['$', 'a', 'r', 'g', 'o', 'n', '2', 'i', '$'])
        || has_prefix(hash, seq!['$', 'a', 'r', 'g', 'o', 'n', '2', 'i', 'd', '$'])
}

/// Whether `password` matches the stored credential `hash`.
pub open spec fn password_matches(hash: Seq<char>, password: Seq<char>) -> bool {
    argon2_family_shaped(hash) && argon2_accepts(hash, password)
}

/// Why no hash could be produced.
#[derive(Clone, Copy, Debug, PartialEq, Eq, Structural)]
pub enum HashingFailure {
    /// The operating system's random source gave no salt.
    EntropyUnavailable,
    /// The hasher refused the password or the salt for its size.
    HasherRejected,
}

/// Relies on `rand_core::OsRng::try_fill_bytes` for 16 bytes of entropy.
#[verifier::external_body]
fn random_salt_bytes() -> (r: Option<Vec<u8>>)
    ensures
        r matches Some(b) ==> b@.len() == 16,
{
    let mut bytes = vec![0u8; Salt::RECOMMENDED_LENGTH];
    OsRng.try_fill_bytes(&mut bytes).ok()?;
    Some(bytes)
}

/// Relies on `SaltString::encode_b64`, which writes up to 48 bytes as unpadded
/// B64 (`[A-Za-z0-9+/]`; salts under 3 bytes would make `hash_password` panic
/// on the salt's invariant), and on `Argon2::default().hash_password`, which
/// for such a salt fails only on a password over `2^32 - 1` bytes, and whose
/// result `to_string` writes as `$argon2id$v=19$m=19456,t=2,p=1$<salt>$<output>`;
/// the crate documents that this string verifies against the same password.
#[verifier::external_body]
fn argon2_hash(password: &str, salt: &[u8]) -> (r: Option<String>)
    requires
        salt_length_ok(salt@),
    ensures
        r is Some <==> password_length_ok(password@),
        r matches Some(h) ==> h@ == ARGON2_PHC_PREFIX@ + b64_salt_text(salt@) + seq!['$'] + argon2_output_b64(password@, salt@),
        r matches Some(h) ==> argon2_accepts(h@, password@),
        r matches Some(h) ==> b64_salt_text(salt@).len() == (4 * salt@.len() + 2) / 3,
        r matches Some(h) ==> !b64_salt_text(salt@).contains('$'),
{
    let salt = SaltString::encode_b64(salt).ok()?;
    Argon2::default().hash_password(password.as_bytes(), &salt).ok().map(|h| h.to_string())
}

/// Relies on `PasswordHash::new`, which reads the algorithm identifier between
/// the first two `$`, and on `Argon2::default().verify_password`, which fails
/// unless that identifier is `argon2d`, `argon2i` or `argon2id` and a salt and
/// an output follow, and compares the recomputed output in constant time.
#[verifier::external_body]
fn argon2_verify(hash: &str, password: &str) -> (r: bool)
    ensures
        r == argon2_accepts(hash@, password@),
        r ==> argon2_family_shaped(hash@),
{
    match PasswordHash::new(hash) {
        Ok(parsed) => Argon2::default().verify_password(password.as_bytes(), &parsed).is_ok(),
        Err(_) => false,
    }
}

/// Hash strings whose salt texts differ are different, whatever the derived
/// keys: the salt stands verbatim between the parameters and the key.
pub proof fn lemma_distinct_salts_distinct_hashes(
    salt_text1: Seq<char>,
    output1: Seq<char>,
    salt_text2: Seq<char>,
    output2: Seq<char>,
)
    requires
        salt_text1 != salt_text2,
        !salt_text1.contains('$'),
        !salt_text2.contains('$'),
    ensures
        phc_layout(salt_text1, output1) != phc_layout(salt_text2, output2),
{
    let h1 = phc_layout(salt_text1, output1);
    let h2 = phc_layout(salt_text2, output2);
    let n = ARGON2_PHC_PREFIX@.len();
    if h1 == h2 {
        let t1 = salt_text1 + seq!['$'] + output1;
        let t2 = salt_text2 + seq!['$'] + output2;
        assert(t1 =~= h1.subrange(n as int, h1.len() as int));
        assert(t2 =~= h2.subrange(n as int, h2.len() as int));
        assert(t1 == t2);
        if salt_text1.len() < salt_text2.len() {
            assert(t1[salt_text1.len() as int] == '$');
            assert(t2[salt_text1.len() as int] == salt_text2[salt_text1.len() as int]);
        } else if salt_text2.len() < salt_text1.len() {
            assert(t2[salt_text2.len() as int] == '$');
            assert(t1[salt_text2.len() as int] == salt_text1[salt_text2.len() as int]);
        } else {
            assert forall|i: int| 0 <= i < salt_text1.len() implies salt_text1[i]
                == salt_text2[i] by {
                assert(t1[i] == salt_text1[i]);
                assert(t2[i] == salt_text2[i]);
            }
            assert(salt_text1 =~= salt_text2);
        }
    }
}

/// Every PHC string with the default parameters names the `argon2id` variant.
proof fn lemma_phc_layout_family_shaped(salt_text: Seq<char>, output: Seq<char>)
    ensures
        argon2_family_shaped(phc_layout(salt_text, output)),
{
    reveal_strlit("$argon2id$v=19$m=19456,t=2,p=1$");
    let h = phc_layout(salt_text, output);
    let id = seq!['$', 'a', 'r', 'g', 'o', 'n', '2', 'i', 'd', '$'];
    assert(h.subrange(0, 10) =~= id);
}

/// Password hashing and verification.
pub struct UserService;

impl UserService {
    /// Hashes `password` under 16 freshly drawn random salt bytes. A produced
    /// hash always verifies against the same password; hashing fails only for
    /// want of entropy or on a password longer than the hasher takes.
    pub fn hash_password(password: &str) -> (r: Result<String, HashingFailure>)
        ensures
            r matches Ok(h) ==> exists|salt: Seq<u8>|
                salt.len() == 16 && h@ == #[trigger] argon2_phc_string(password@, salt)
                    && b64_salt_text(salt).len() == 22 && !b64_salt_text(salt).contains('$'),
            r matches Ok(h) ==> password_matches(h@, password@),
            !password_length_ok(password@) ==> r is Err,
            r matches Err(HashingFailure::HasherRejected) ==> !password_length_ok(password@),
    {
        match random_salt_bytes() {
            Some(salt) => Self::hash_password_with_salt(password, salt.as_slice()),
            None => {
                if password.len() > 0xFFFF_FFFF {
                    Err(HashingFailure::HasherRejected)
                } else {
                    Err(HashingFailure::EntropyUnavailable)
                }
            },
        }
    }

    /// Hashes `password` under the given salt bytes. It succeeds exactly when
    /// the salt is 8 to 48 bytes and the password at most `2^32 - 1` bytes, so
    /// the same inputs always give the same string.
    pub fn hash_password_with_salt(password: &str, salt: &[u8]) -> (r: Result<String, HashingFailure>)
        ensures
            r is Ok <==> salt_length_ok(salt@) && password_length_ok(password@),
            r matches Ok(h) ==> h@ == argon2_phc_string(password@, salt@),
            r matches Ok(h) ==> password_matches(h@, password@),
            r matches Ok(_) ==> b64_salt_text(salt@).len() == (4 * salt@.len() + 2) / 3
                && !b64_salt_text(salt@).contains('$'),
            r matches Err(e) ==> e == HashingFailure::HasherRejected,
    {
        if salt.len() < 8 || salt.len() > 48 {
            return Err(HashingFailure::HasherRejected);
        }
        match argon2_hash(password, salt) {
            Some(h) => {
                proof {
                    lemma_phc_layout_family_shaped(
                        b64_salt_text(salt@),
                        argon2_output_b64(password@, salt@),
                    );
                }
                Ok(h)
            },
            None => Err(HashingFailure::HasherRejected),
        }
    }

    /// Checks `password` against the stored PHC string `hash`. A malformed or
    /// foreign hash is a mismatch, never an error.
    pub fn verify_password(hash: &str, password: &str) -> (r: bool)
        ensures
            r == password_matches(hash@, password@),
            !argon2_family_shaped(hash@) ==> !r,
    {
        argon2_verify(hash, password)
    }
}

} // verus!
