//! User records exchanged with clients and the credential store, and the
//! short-lived claim record.
use crate::password::{
    argon2_phc_string, b64_salt_text, password_length_ok, password_matches, HashingFailure,
    UserService,
};
use vstd::prelude::*;
use vstd::string::*;

verus! {

/// A request to create a user; `password` is the plaintext secret.
#[derive(Clone, Debug, PartialEq, Eq)]
pub struct CreateUser {
    pub name: String,
    pub email: String,
    pub password: String,
}

/// A stored user as returned to clients, without credentials.
#[derive(Clone, Debug, PartialEq, Eq)]
pub struct User {
    pub id: i32,
    pub name: String,
    pub email: String,
}

/// A page of users together with the total number of matches.
#[derive(Clone, Debug, PartialEq, Eq)]
pub struct UserListResponse {
    pub count: i64,
    pub users: Vec<User>,
}

/// A partial update: absent fields are left unchanged.
#[derive(Clone, Debug, PartialEq, Eq)]
pub struct UpdateUser {
    pub name: Option<String>,
    pub email: Option<String>,
}

/// The row handed to the credential store at registration: the plaintext
/// secret is replaced by its hash.
#[derive(Clone, Debug, PartialEq, Eq)]
pub struct NewUserRow {
    pub name: String,
    pub email: String,
    pub password_hash: String,
}

/// Hashes the secret of a registration request into the row to insert.
pub fn prepare_registration(user: &CreateUser) -> (r: Result<NewUserRow, HashingFailure>)
    ensures
        r matches Ok(row) ==> row.name@ == user.name@ && row.email@ == user.email@,
        r matches Ok(row) ==> exists|salt: Seq<u8>|
            salt.len() == 16 && row.password_hash@ == #[trigger] argon2_phc_string(
                user.password@,
                salt,
            ) && b64_salt_text(salt).len() == 22 && !b64_salt_text(salt).contains('$'),
        r matches Ok(row) ==> password_matches(row.password_hash@, user.password@),
        !password_length_ok(user.password@) ==> r is Err,
        r matches Err(HashingFailure::HasherRejected) ==> !password_length_ok(user.password@),
{
    match UserService::hash_password(user.password.as_str()) {
        Ok(hash) => Ok(
            NewUserRow { name: user.name.clone(), email: user.email.clone(), password_hash: hash },
        ),
        Err(e) => Err(e),
    }
}

/// Lifetime of a claim, in seconds (five minutes).
pub const CLAIM_LIFETIME_SECS: i64 = 300;

/// The expiry stamp of a claim issued at `now`, in the word-sized form the
/// claim stores.
pub open spec fn expiry_after(now: i64) -> usize {
    (now + CLAIM_LIFETIME_SECS) as usize
}

/// The character of a decimal digit.
pub open spec fn digit_char(d: int) -> char {
    ('0' as int + d) as char
}

/// The decimal digits of a natural number, most significant first.
pub open spec fn natural_digits(n: nat) -> Seq<char>
    decreases n,
{
    if n < 10 {
        seq![digit_char(n as int)]
    } else {
        natural_digits((n / 10) as nat).push(digit_char((n % 10) as int))
    }
}

/// The decimal text of an integer, with a leading `-` when negative.
pub open spec fn decimal_text(n: int) -> Seq<char> {
    if n < 0 {
        seq!['-'] + natural_digits((-n) as nat)
    } else {
        natural_digits(n as nat)
    }
}

/// The ten decimal digits in order.
const DIGITS: &'static str = "0123456789";

/// Appends the decimal digits of `m` to `out`.
fn push_natural_digits(out: &mut String, m: u32)
    ensures
        final(out)@ == old(out)@ + natural_digits(m as nat),
    decreases m,
{
    if m >= 10 {
        push_natural_digits(out, m / 10);
    }
    let d = (m % 10) as usize;
    proof {
        reveal_strlit("0123456789");
    }
    let digit = DIGITS.substring_char(d, d + 1);
    proof {
        assert(DIGITS@[d as int] == digit_char(d as int));
        assert(digit@ =~= seq![digit_char(d as int)]);
    }
    out.append(digit);
    proof {
        if m >= 10 {
            assert(natural_digits(m as nat) == natural_digits((m / 10) as nat).push(
                digit_char((m % 10) as int),
            ));
        }
        assert(final(out)@ =~= old(out)@ + natural_digits(m as nat));
    }
}

/// The decimal text of `n`, as `i32`'s `Display` writes it.
fn i32_text(n: i32) -> (r: String)
    ensures
        r@ == decimal_text(n as int),
{
    let mut out = String::new();
    if n < 0 {
        out.append("-");
        proof {
            reveal_strlit("-");
        }
        let m = (0i64 - n as i64) as u32;
        push_natural_digits(&mut out, m);
        assert(out@ =~= decimal_text(n as int));
    } else {
        push_natural_digits(&mut out, n as u32);
        assert(out@ =~= decimal_text(n as int));
    }
    out
}

/// Relies on `chrono::Utc::now().timestamp()`: seconds since the Unix epoch,
/// within chrono's representable years (magnitude below 2^43).
#[verifier::external_body]
fn now_unix_seconds() -> (r: i64)
    ensures
        -0x800_0000_0000 < r < 0x800_0000_0000,
{
    chrono::Utc::now().timestamp()
}

/// A short-lived claim about a user.
#[derive(Clone, Debug, PartialEq, Eq)]
pub struct Claims {
    pub sub: String,
    pub exp: usize,
    pub single_use: bool,
}

impl Claims {
    /// A claim about `user_id` that expires five minutes from now.
    pub fn new(user_id: i32, single_use: bool) -> (r: Claims)
        ensures
            r.sub@ == decimal_text(user_id as int),
            r.single_use == single_use,
            exists|now: i64|
                -0x800_0000_0000 < now < 0x800_0000_0000 && r.exp == #[trigger] expiry_after(now),
    {
        let now = now_unix_seconds();
        Self::issued_at(user_id, single_use, now)
    }

    /// A claim about `user_id` issued at `now` (Unix seconds), expiring five
    /// minutes later.
    pub fn issued_at(user_id: i32, single_use: bool, now: i64) -> (r: Claims)
        requires
            now <= i64::MAX - CLAIM_LIFETIME_SECS,
        ensures
            r.sub@ == decimal_text(user_id as int),
            r.exp == expiry_after(now),
            r.single_use == single_use,
    {
        let exp = (now + CLAIM_LIFETIME_SECS) as usize;
        Claims { sub: i32_text(user_id), exp, single_use }
    }
}

} // verus!
