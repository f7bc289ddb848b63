//! Which vault file to use.
use vstd::prelude::*;

use crate::text;

verus! {

/// The vault file name looked for in the current directory.
pub const LOCAL_VAULT_NAME: &'static str = "pwstash.stash";
/// The environment variable that names the vault file.
pub const FILE_ENV: &'static str = "PWSTASH_FILE";

/// Resolves the vault file when no `--file` was given: the file named by
/// `PWSTASH_FILE`, then `./pwstash.stash` if that file exists, then the
/// per-user default path.
pub fn resolve(env_file: Option<&str>, local_exists: bool, platform_default: &str) -> (r: String)
    ensures
        env_file matches Some(p) ==> r@ == p@,
        env_file is None && local_exists ==> r@ == LOCAL_VAULT_NAME@,
        env_file is None && !local_exists ==> r@ == platform_default@,
{
    if let Some(path) = env_file {
        return text::to_owned(path);
    }
    if local_exists {
        return text::to_owned(LOCAL_VAULT_NAME);
    }
    text::to_owned(platform_default)
}

/// Where the per-user vault lives below the home directory.
pub const USER_VAULT_SUBPATH: &'static str = ".local/share/pwstash/vault.stash";

/// `base` joined with the relative path `rest`, with one separator between.
pub open spec fn spec_join(base: Seq<char>, rest: Seq<char>) -> Seq<char> {
    if base.len() > 0 && base.last() != '/' {
        base + "/"@ + rest
    } else {
        base + rest
    }
}

/// The per-user default vault path: `$HOME/.local/share/pwstash/vault.stash`
/// when the home directory is known and not empty, else `./pwstash.stash`.
pub fn platform_vault_path(home: Option<&str>) -> (r: String)
    ensures
        home matches Some(h) && h@.len() > 0 ==> r@ == spec_join(home->0@, USER_VAULT_SUBPATH@),
        !(home matches Some(h) && h@.len() > 0) ==> r@ == LOCAL_VAULT_NAME@,
{
    proof {
        reveal_strlit("/");
    }
    match home {
        Some(h) => {
            if h.is_empty() {
                return text::to_owned(LOCAL_VAULT_NAME);
            }
            let mut out = text::to_owned(h);
            let n = h.unicode_len();
            if h.get_char(n - 1) != '/' {
                out.append("/");
            }
            out.append(USER_VAULT_SUBPATH);
            out
        },
        None => text::to_owned(LOCAL_VAULT_NAME),
    }
}

/// Resolves the vault file: the `--file` argument, then the file named by
/// a non-empty `PWSTASH_FILE`, then `./pwstash.stash` if that file exists,
/// then the per-user default path.
pub fn resolve_vault_path(
    cli_file: Option<&str>,
    env_file: Option<&str>,
    local_exists: bool,
    platform_default: &str,
) -> (r: String)
    ensures
        cli_file matches Some(p) ==> r@ == p@,
        cli_file is None && (env_file matches Some(e) && e@.len() > 0) ==> r@ == env_file->0@,
        cli_file is None && !(env_file matches Some(e) && e@.len() > 0) && local_exists ==> r@
            == LOCAL_VAULT_NAME@,
        cli_file is None && !(env_file matches Some(e) && e@.len() > 0) && !local_exists ==> r@
            == platform_default@,
{
    if let Some(path) = cli_file {
        return text::to_owned(path);
    }
    let env = match env_file {
        Some(e) => if e.is_empty() {
            None
        } else {
            Some(e)
        },
        None => None,
    };
    resolve(env, local_exists, platform_default)
}

} // verus!
