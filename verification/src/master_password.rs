//! The rules for master and entry passwords read from the environment or
//! from a prompt.
use vstd::prelude::*;

use crate::error::StashError;
use crate::text;

verus! {

/// The environment variable that holds the vault's master password.
pub const MASTER_ENV: &'static str = "PWSTASH_MASTER";
/// The environment variable that holds the password for `add` and `update`.
pub const ENTRY_ENV: &'static str = "PWSTASH_ENTRY_PASSWORD";

/// An environment value counts only when it is set and not empty.
pub fn nonempty_env(value: Option<String>) -> (r: Option<String>)
    ensures
        match value {
            Some(v) => if v@.len() > 0 {
                r == Some(v)
            } else {
                r is None
            },
            None => r is None,
        },
{
    match value {
        Some(v) => if v.as_str().is_empty() {
            None
        } else {
            Some(v)
        },
        None => None,
    }
}

/// Accepts a new master password typed twice: both entries must agree and
/// must not be empty.
pub fn confirm_new_master_password(first: String, second: &str) -> (res: Result<
    String,
    StashError,
>)
    ensures
        first@ != second@ ==> res == Err::<String, StashError>(StashError::PasswordMismatch),
        first@ == second@ && first@.len() == 0 ==> res == Err::<String, StashError>(
            StashError::EmptyField { field: "master password" },
        ),
        first@ == second@ && first@.len() > 0 ==> res == Ok::<String, StashError>(first),
{
    if !text::str_eq(first.as_str(), second) {
        return Err(StashError::PasswordMismatch);
    }
    if first.as_str().is_empty() {
        return Err(StashError::EmptyField { field: "master password" });
    }
    Ok(first)
}

} // verus!
