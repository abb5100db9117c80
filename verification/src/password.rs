//! Password hashing and checking, through the `bcrypt` crate.
use vstd::prelude::*;

verus! {

#[verifier::external_type_specification]
#[verifier::external_body]
pub struct ExBcryptError(bcrypt::BcryptError);

/// What `bcrypt::verify` answers for a password and a stored hash.
pub uninterp spec fn bcrypt_verify_result(password: Seq<char>, hash: Seq<char>) -> Result<
    bool,
    bcrypt::BcryptError,
>;

/// Calls `bcrypt::verify(password, hash)`. Verification is deterministic, so the
/// contract names its answer as a function of the two strings alone.
#[verifier::external_body]
fn bcrypt_verify(password: &str, hash: &str) -> (res: Result<bool, bcrypt::BcryptError>)
    ensures
        res == bcrypt_verify_result(password@, hash@),
{
    bcrypt::verify(password, hash)
}

/// `bcrypt::verify` answers `Ok(true)` for this password and hash.
pub open spec fn verify_accepts(password: Seq<char>, hash: Seq<char>) -> bool {
    bcrypt_verify_result(password, hash) == Ok::<bool, bcrypt::BcryptError>(true)
}

/// Calls `bcrypt::hash(password, bcrypt::DEFAULT_COST)`. The salt is random, so the
/// hash itself is left open; the contract states only that `bcrypt::verify` accepts
/// the same password against any hash it returns (both truncate the password the
/// same way and reuse the salt and cost written in the hash).
#[verifier::external_body]
pub(crate) fn hash_password(password: &str) -> (res: Result<String, bcrypt::BcryptError>)
    ensures
        res matches Ok(h) ==> verify_accepts(password@, h@),
{
    bcrypt::hash(password, bcrypt::DEFAULT_COST)
}

/// What checking a given password against a stored hash answers: a user without
/// a hash accepts anything, a user with one refuses a missing password.
pub open spec fn password_check_result(given: Option<Seq<char>>, hash: Option<Seq<char>>) -> Result<
    bool,
    bcrypt::BcryptError,
> {
    match hash {
        Some(h) => match given {
            Some(g) => bcrypt_verify_result(g, h),
            None => Ok(false),
        },
        None => Ok(true),
    }
}

/// The view of an optional string slice.
pub open spec fn opt_str_chars(o: Option<&str>) -> Option<Seq<char>> {
    match o {
        Some(s) => Some(s@),
        None => None,
    }
}

/// Checks a given password against a user's stored hash.
pub fn check_password(given: Option<&str>, hash: &Option<String>) -> (res: Result<
    bool,
    bcrypt::BcryptError,
>)
    ensures
        res == password_check_result(opt_str_chars(given), crate::user::opt_chars(*hash)),
{
    match hash {
        Some(hash) => match given {
            Some(given) => bcrypt_verify(given, hash.as_str()),
            None => Ok(false),
        },
        None => Ok(true),
    }
}


/// A password passes the check against a hash that was made from it.
pub proof fn law_hashed_password_passes(password: Seq<char>, hash: Seq<char>)
    requires
        verify_accepts(password, hash),
    ensures
        password_check_result(Some(password), Some(hash)) == Ok::<bool, bcrypt::BcryptError>(true),
{
}

/// Without a stored hash any password passes, even none; with one, a missing password fails.
pub proof fn law_password_rules(given: Option<Seq<char>>, hash: Seq<char>)
    ensures
        password_check_result(given, None) == Ok::<bool, bcrypt::BcryptError>(true),
        password_check_result(None, Some(hash)) == Ok::<bool, bcrypt::BcryptError>(false),
{
}

} // verus!
