//! How long a copied secret may stay on the clipboard.
use vstd::prelude::*;

use crate::text;

verus! {

/// How long a copied secret stays on the clipboard, in milliseconds.
pub const CLIPBOARD_TTL_MS: u64 = 30000;

/// The environment variable that shortens the clipboard wait, in
/// milliseconds.
pub const CLIPBOARD_TTL_ENV: &'static str = "PWSTASH_CLIPBOARD_TTL_MS";

/// The clipboard wait of `pwstash copy`: the value of
/// `PWSTASH_CLIPBOARD_TTL_MS` when it is a positive whole number of
/// milliseconds, else thirty seconds.
pub fn clipboard_ttl_ms(env_value: Option<&str>) -> (r: u64)
    ensures
        match env_value {
            Some(v) => match text::spec_parse_u64(v@) {
                Some(n) => if n > 0 {
                    r == n
                } else {
                    r == CLIPBOARD_TTL_MS
                },
                None => r == CLIPBOARD_TTL_MS,
            },
            None => r == CLIPBOARD_TTL_MS,
        },
{
    match env_value {
        Some(v) => match text::parse_u64(v) {
            Some(n) => if n > 0 {
                n
            } else {
                CLIPBOARD_TTL_MS
            },
            None => CLIPBOARD_TTL_MS,
        },
        None => CLIPBOARD_TTL_MS,
    }
}

} // verus!
