use pwstash::paths::platform_vault_path;
use pwstash::clipboard::{clipboard_ttl_ms, CLIPBOARD_TTL_MS};
use pwstash::text::parse_u64;
use pwstash::master_password::{confirm_new_master_password, nonempty_env};
use pwstash::paths::{resolve, LOCAL_VAULT_NAME};
use pwstash::error::StashError;

#[test]
fn env_file_wins_over_local_and_platform() {
    let path = resolve(
        Some("/tmp/from-env.stash"),
        true,
        "/home/user/vault.stash",
    );
    assert_eq!(path, "/tmp/from-env.stash");
}

#[test]
fn existing_local_vault_used_when_no_env() {
    let path = resolve(None, true, "/home/user/vault.stash");
    assert_eq!(path, LOCAL_VAULT_NAME);
}

#[test]
fn platform_default_when_nothing_else() {
    let home = "/home/user/.local/share/pwstash/vault.stash";
    let path = resolve(None, false, home);
    assert_eq!(path, home);
}

#[test]
fn local_vault_name_is_pwstash_stash() {
    assert_eq!(LOCAL_VAULT_NAME, "pwstash.stash");
}

#[test]
fn empty_env_value_does_not_count() {
    assert_eq!(nonempty_env(Some(String::new())), None);
    assert_eq!(nonempty_env(None), None);
    assert_eq!(nonempty_env(Some("x".to_string())), Some("x".to_string()));
}

#[test]
fn new_master_password_must_match_and_not_be_empty() {
    assert_eq!(
        confirm_new_master_password("a".to_string(), "b"),
        Err(StashError::PasswordMismatch)
    );
    assert_eq!(
        confirm_new_master_password(String::new(), ""),
        Err(StashError::EmptyField {
            field: "master password"
        })
    );
    assert_eq!(
        confirm_new_master_password("s3cret".to_string(), "s3cret"),
        Ok("s3cret".to_string())
    );
}

#[test]
fn cli_file_wins_over_everything() {
    let path = pwstash::paths::resolve_vault_path(
        Some("cli.stash"),
        Some("/tmp/env.stash"),
        true,
        "/home/user/vault.stash",
    );
    assert_eq!(path, "cli.stash");
}

#[test]
fn empty_env_file_is_ignored() {
    let path = pwstash::paths::resolve_vault_path(None, Some(""), false, "/home/u/v.stash");
    assert_eq!(path, "/home/u/v.stash");
    let path = pwstash::paths::resolve_vault_path(None, Some("/e.stash"), true, "/home/u/v.stash");
    assert_eq!(path, "/e.stash");
    let path = pwstash::paths::resolve_vault_path(None, None, true, "/home/u/v.stash");
    assert_eq!(path, LOCAL_VAULT_NAME);
}

#[test]
fn platform_path_under_home() {
    assert_eq!(
        platform_vault_path(Some("/home/user")),
        "/home/user/.local/share/pwstash/vault.stash"
    );
    assert_eq!(
        platform_vault_path(Some("/home/user/")),
        "/home/user/.local/share/pwstash/vault.stash"
    );
    assert_eq!(platform_vault_path(Some("")), LOCAL_VAULT_NAME);
    assert_eq!(platform_vault_path(None), LOCAL_VAULT_NAME);
}

#[test]
fn clipboard_ttl_from_env() {
    assert_eq!(CLIPBOARD_TTL_MS, 30_000);
    assert_eq!(clipboard_ttl_ms(None), 30_000);
    assert_eq!(clipboard_ttl_ms(Some("1")), 1);
    assert_eq!(clipboard_ttl_ms(Some("+250")), 250);
    assert_eq!(clipboard_ttl_ms(Some("0")), 30_000);
    assert_eq!(clipboard_ttl_ms(Some("")), 30_000);
    assert_eq!(clipboard_ttl_ms(Some("-5")), 30_000);
    assert_eq!(clipboard_ttl_ms(Some("12a")), 30_000);
    assert_eq!(clipboard_ttl_ms(Some("18446744073709551616")), 30_000);
}

#[test]
fn parse_u64_matches_std() {
    for s in ["0", "7", "+7", "007", "18446744073709551615", "18446744073709551616", "", "+", "-1", " 1", "1 ", "a", "99999999999999999999"] {
        assert_eq!(parse_u64(s), s.parse::<u64>().ok(), "input {s:?}");
    }
}
