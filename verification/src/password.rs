//! The decisions of the change-password flow that do not touch sessions or
//! credential hashing: the policy on a proposed new password.

use vstd::prelude::*;
use vstd::string::*;

verus! {

/// Shortest accepted password, in characters.
pub const PASSWORD_MIN_LENGTH: usize = 12;

/// Longest accepted password, in characters.
pub const PASSWORD_MAX_LENGTH: usize = 128;

/// Why a proposed new password was turned down.
#[derive(Clone, Copy, PartialEq, Eq, Debug)]
pub enum PasswordRejection {
    /// Outside the accepted length range.
    InvalidLength,
    /// The two entries of the new password differ.
    Mismatch,
}

/// An acceptable password length.
pub open spec fn password_length_ok(s: Seq<char>) -> bool {
    PASSWORD_MIN_LENGTH <= s.len() <= PASSWORD_MAX_LENGTH
}

/// Check a proposed password change: the length bound first, then that the
/// two entries agree — the order the form reports problems in.
pub fn validate_password_change(new_password: &String, new_password_check: &String) -> (r: Option<
    PasswordRejection,
>)
    ensures
        r is None <==> password_length_ok(new_password@) && new_password@ == new_password_check@,
        r == Some(PasswordRejection::InvalidLength) <==> !password_length_ok(new_password@),
        r == Some(PasswordRejection::Mismatch) <==> password_length_ok(new_password@)
            && new_password@ != new_password_check@,
{
    let n = new_password.as_str().unicode_len();
    if n < PASSWORD_MIN_LENGTH || n > PASSWORD_MAX_LENGTH {
        Some(PasswordRejection::InvalidLength)
    } else if !new_password.eq(new_password_check) {
        Some(PasswordRejection::Mismatch)
    } else {
        None
    }
}

} // verus!
