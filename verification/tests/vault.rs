use pwstash::error::StashError;
use pwstash::persistence::VaultFile;
use pwstash::vault::{PasswordEntry, Vault};

fn entries_to_json(entries: &[PasswordEntry]) -> Vec<u8> {
    let mut list = Vec::new();
    for e in entries {
        let mut obj = serde_json::Map::new();
        obj.insert("service".to_string(), serde_json::Value::String(e.service.clone()));
        obj.insert("username".to_string(), serde_json::Value::String(e.username.clone()));
        obj.insert("password".to_string(), serde_json::Value::String(e.password.clone()));
        if !e.url.is_empty() {
            obj.insert("url".to_string(), serde_json::Value::String(e.url.clone()));
        }
        if !e.notes.is_empty() {
            obj.insert("notes".to_string(), serde_json::Value::String(e.notes.clone()));
        }
        list.push(serde_json::Value::Object(obj));
    }
    serde_json::to_vec(&serde_json::Value::Array(list)).unwrap()
}

fn entries_from_json(bytes: &[u8]) -> Vec<PasswordEntry> {
    let value: serde_json::Value = serde_json::from_slice(bytes).unwrap();
    let field = |v: &serde_json::Value, k: &str| -> String {
        v.get(k).and_then(|x| x.as_str()).unwrap_or("").to_string()
    };
    value
        .as_array()
        .unwrap()
        .iter()
        .map(|v| PasswordEntry {
            service: field(v, "service"),
            username: field(v, "username"),
            password: field(v, "password"),
            url: field(v, "url"),
            notes: field(v, "notes"),
        })
        .collect()
}

/// What saving the vault writes.
fn save(v: &Vault) -> Vec<u8> {
    let plaintext = entries_to_json(v.entries());
    v.seal(&plaintext).unwrap().encode()
}

/// Opens vault bytes as they would be read from `path`.
fn open(path: &str, bytes: Option<&[u8]>, master: &str) -> Result<Vault, StashError> {
    let bytes = bytes.ok_or(StashError::FileNotFound)?;
    let file = VaultFile::decode(bytes)?;
    let unsealed = Vault::unseal(&file, master)?;
    let entries = entries_from_json(&unsealed.plaintext);
    Ok(Vault::from_parts(path, file.salt, unsealed.key, entries))
}

fn err<T>(r: Result<T, StashError>) -> StashError {
    match r {
        Ok(_) => panic!("expected an error"),
        Err(e) => e,
    }
}

fn vault() -> Vault {
    Vault::create("test.stash", "master-secret", false).unwrap()
}

#[test]
fn create_open_empty() {
    let v = vault();
    let bytes = save(&v);
    let opened = open(v.path(), Some(&bytes), "master-secret").unwrap();
    assert!(opened.entries().is_empty());
}

#[test]
fn create_existing_fails() {
    let v = vault();
    let err = err(Vault::create(v.path(), "master-secret", true));
    assert!(matches!(err, StashError::FileAlreadyExists { .. }));
}

#[test]
fn wrong_password_fails_closed() {
    let v = vault();
    let bytes = save(&v);
    let err = err(open(v.path(), Some(&bytes), "wrong"));
    assert!(matches!(err, StashError::InvalidMasterPassword));
}

#[test]
fn add_get_update_delete() {
    let mut v = vault();
    v.add("GitHub", "me", "hunter2").unwrap();
    let got = v.get("github").unwrap();
    assert_eq!(got.username, "me");
    assert_eq!(got.password, "hunter2");

    v.update("github", "other", "newpass").unwrap();
    let got = v.get("GitHub").unwrap();
    assert_eq!(got.username, "other");
    assert_eq!(got.password, "newpass");

    v.delete("GITHUB").unwrap();
    assert!(v.get("github").is_none());
}

#[test]
fn duplicate_service_rejected() {
    let mut v = vault();
    v.add("github", "me", "a").unwrap();
    let err = v.add("GitHub", "you", "b").unwrap_err();
    assert!(matches!(err, StashError::DuplicateService { .. }));
}

#[test]
fn update_missing_service() {
    let mut v = vault();
    let err = v.update("nope", "u", "p").unwrap_err();
    assert!(matches!(err, StashError::ServiceNotFound { .. }));
}

#[test]
fn delete_missing_service() {
    let mut v = vault();
    let err = v.delete("nope").unwrap_err();
    assert!(matches!(err, StashError::ServiceNotFound { .. }));
}

#[test]
fn empty_fields_rejected() {
    let mut v = vault();
    assert!(matches!(
        v.add("  ", "u", "p"),
        Err(StashError::EmptyField { field: "service" })
    ));
    assert!(matches!(
        v.add("s", "  ", "p"),
        Err(StashError::EmptyField { field: "username" })
    ));
    assert!(matches!(
        v.add("s", "u", ""),
        Err(StashError::EmptyField { field: "password" })
    ));
}

#[test]
fn url_and_notes_roundtrip() {
    let mut v = vault();
    v.add_full("mail", "ada", "pw", "https://mail.example", "work account")
        .unwrap();
    let bytes = save(&v);
    let opened = open(v.path(), Some(&bytes), "master-secret").unwrap();
    let entry = opened.get("mail").unwrap();
    assert_eq!(entry.url, "https://mail.example");
    assert_eq!(entry.notes, "work account");
}

#[test]
fn update_preserves_url_unless_passed() {
    let mut v = vault();
    v.add_full("mail", "ada", "pw", "https://a.example", "note")
        .unwrap();
    v.update("mail", "ada", "pw2").unwrap();
    let entry = v.get("mail").unwrap();
    assert_eq!(entry.url, "https://a.example");
    assert_eq!(entry.notes, "note");
    v.update_full("mail", "ada", "pw3", None, Some("new note"))
        .unwrap();
    let entry = v.get("mail").unwrap();
    assert_eq!(entry.url, "https://a.example");
    assert_eq!(entry.notes, "new note");
}

#[test]
fn persist_across_open() {
    let mut v = vault();
    v.add("mail", "ada", "pw").unwrap();
    let bytes = save(&v);
    let opened = open(v.path(), Some(&bytes), "master-secret").unwrap();
    assert_eq!(opened.entries().len(), 1);
    assert_eq!(opened.entries()[0].service, "mail");
    assert_eq!(opened.entries()[0].password, "pw");
}

#[test]
fn change_master_reencrypts() {
    let mut v = vault();
    v.add("mail", "ada", "pw").unwrap();
    v.change_master("new-master-secret").unwrap();
    let bytes = save(&v);
    let err = err(open(v.path(), Some(&bytes), "master-secret"));
    assert!(matches!(err, StashError::InvalidMasterPassword));
    let opened = open(v.path(), Some(&bytes), "new-master-secret").unwrap();
    assert_eq!(opened.get("mail").unwrap().password, "pw");
}

#[test]
fn lock_wipes_then_unlock_restores() {
    let mut v = vault();
    v.add("mail", "ada", "pw").unwrap();
    let bytes = save(&v);
    v.lock();
    assert!(v.is_locked());
    assert!(v.entries().is_empty());
    assert!(matches!(v.add("x", "y", "z"), Err(StashError::VaultLocked)));
    let path = v.path().to_string();
    v.unlock(open(&path, Some(&bytes), "master-secret")).unwrap();
    assert!(!v.is_locked());
    assert_eq!(v.get("mail").unwrap().password, "pw");
}

#[test]
fn lock_wrong_password_stays_locked() {
    let mut v = vault();
    let bytes = save(&v);
    v.lock();
    let path = v.path().to_string();
    assert!(matches!(
        v.unlock(open(&path, Some(&bytes), "nope")),
        Err(StashError::InvalidMasterPassword)
    ));
    assert!(v.is_locked());
}

#[test]
fn change_master_rejects_empty() {
    let mut v = vault();
    assert!(matches!(
        v.change_master(""),
        Err(StashError::EmptyField {
            field: "master password"
        })
    ));
}

#[test]
fn tampered_file_fails() {
    let v = vault();
    let mut bytes = save(&v);
    let last = bytes.len() - 1;
    bytes[last] ^= 0xaa;
    let err = err(open(v.path(), Some(&bytes), "master-secret"));
    assert!(matches!(err, StashError::InvalidMasterPassword));
}

#[test]
fn open_missing_fails() {
    let err = err(open("nope.stash", None, "x"));
    assert!(matches!(err, StashError::FileNotFound));
}

#[test]
fn missing_url_notes_default_empty() {
    let json = r#"[{"service":"s","username":"u","password":"p"}]"#;
    let entries = entries_from_json(json.as_bytes());
    assert_eq!(entries[0].url, "");
    assert_eq!(entries[0].notes, "");
}

#[test]
fn create_rejects_empty_master() {
    assert_eq!(
        err(Vault::create("x.stash", "", false)),
        StashError::EmptyField {
            field: "master password"
        }
    );
}

#[test]
fn create_existing_reports_the_path() {
    assert_eq!(
        err(Vault::create("here.stash", "pw", true)),
        StashError::FileAlreadyExists {
            path: "here.stash".to_string()
        }
    );
}

#[test]
fn add_trims_fields_but_not_password() {
    let mut v = vault();
    v.add_full("  mail ", " ada ", " pw ", " u ", " n ").unwrap();
    let e = &v.entries()[0];
    assert_eq!(e.service, "mail");
    assert_eq!(e.username, "ada");
    assert_eq!(e.password, " pw ");
    assert_eq!(e.url, "u");
    assert_eq!(e.notes, "n");
}

#[test]
fn duplicate_reports_trimmed_service() {
    let mut v = vault();
    v.add("mail", "a", "p").unwrap();
    assert_eq!(
        v.add("  MAIL ", "b", "q"),
        Err(StashError::DuplicateService {
            service: "MAIL".to_string()
        })
    );
    assert_eq!(v.entries().len(), 1);
}

#[test]
fn error_order_locked_first() {
    let mut v = vault();
    v.lock();
    assert_eq!(v.add(" ", " ", ""), Err(StashError::VaultLocked));
    assert_eq!(v.delete("x"), Err(StashError::VaultLocked));
    assert_eq!(v.update("x", "u", "p"), Err(StashError::VaultLocked));
    assert_eq!(v.change_master("m"), Err(StashError::VaultLocked));
    assert!(v.seal(b"[]").is_err());
}

#[test]
fn delete_removes_only_that_service() {
    let mut v = vault();
    v.add("a", "u", "p").unwrap();
    v.add("b", "u", "p").unwrap();
    v.add("c", "u", "p").unwrap();
    v.delete("B").unwrap();
    let names: Vec<&str> = v.entries().iter().map(|e| e.service.as_str()).collect();
    assert_eq!(names, vec!["a", "c"]);
}

#[test]
fn rename_moves_entry_and_refuses_taken_name() {
    let mut v = vault();
    v.add("github", "ada", "p").unwrap();
    v.add("mail", "ada", "q").unwrap();
    assert_eq!(
        v.rename("github", "MAIL"),
        Err(StashError::DuplicateService {
            service: "MAIL".to_string()
        })
    );
    v.rename("GitHub", " gh ").unwrap();
    assert!(v.get("github").is_none());
    assert_eq!(v.get("gh").unwrap().password, "p");
    v.rename("gh", "GH").unwrap();
    assert_eq!(v.entries()[0].service, "GH");
    assert_eq!(
        v.rename("nope", "x"),
        Err(StashError::ServiceNotFound {
            service: "nope".to_string()
        })
    );
    assert_eq!(
        v.rename("gh", "  "),
        Err(StashError::EmptyField { field: "service" })
    );
}

#[test]
fn unused_name_counts_up() {
    let mut v = vault();
    assert_eq!(v.unused_name("github"), "github-1");
    v.add("github-1", "a", "p").unwrap();
    v.add("GITHUB-2", "a", "p").unwrap();
    assert_eq!(v.unused_name("github"), "github-3");
}

#[test]
fn update_entry_none_keeps_password() {
    let mut v = vault();
    v.add("mail", "ada", "pw").unwrap();
    v.update_entry("mail", "bob", None, Some(" u "), None).unwrap();
    let e = v.get("mail").unwrap();
    assert_eq!(e.username, "bob");
    assert_eq!(e.password, "pw");
    assert_eq!(e.url, "u");
}

#[test]
fn selected_entries_in_order_or_missing() {
    let mut v = vault();
    v.add("a", "u1", "p").unwrap();
    v.add("b", "u2", "p").unwrap();
    let got = v
        .selected_entries(&["B".to_string(), "a".to_string()])
        .unwrap();
    assert_eq!(got[0].username, "u2");
    assert_eq!(got[1].username, "u1");
    assert!(matches!(
        v.selected_entries(&["zz".to_string()]),
        Err(StashError::ServiceNotFound { .. })
    ));
}

#[test]
fn matches_filter_ignoring_case() {
    let e = PasswordEntry {
        service: "GitHub".to_string(),
        username: "ada".to_string(),
        password: "secret".to_string(),
        url: "https://git.example".to_string(),
        notes: "work".to_string(),
    };
    assert!(e.matches("hub"));
    assert!(e.matches("ADA"));
    assert!(e.matches("git.ex"));
    assert!(e.matches(""));
    assert!(!e.matches("secret"));
    assert!(!e.matches("work"));
}

#[test]
fn diff_lines_name_each_changed_field() {
    let a = PasswordEntry {
        service: "s".to_string(),
        username: "ada".to_string(),
        password: "p1".to_string(),
        url: String::new(),
        notes: "n".to_string(),
    };
    let mut b = a.clone();
    assert!(a.diff_lines(&b).is_empty());
    b.username = "eve".to_string();
    b.password = "p2".to_string();
    assert_eq!(
        a.diff_lines(&b),
        vec!["username: ada -> eve".to_string(), "password differs".to_string()]
    );
}

#[test]
fn error_messages() {
    assert_eq!(
        StashError::ServiceNotFound {
            service: "missing".to_string()
        }
        .message(),
        "no entry for missing found in stash"
    );
    assert_eq!(
        StashError::InvalidMasterPassword.message(),
        "invalid master password or vault is corrupt"
    );
    assert_eq!(
        StashError::InvalidGenerateLength { min: 8, max: 128 }.message(),
        "generated password length must be between 8 and 128"
    );
    assert_eq!(
        StashError::EmptyField { field: "service" }.message(),
        "service must not be empty"
    );
}

#[test]
fn replace_and_absorb_keep_services_distinct() {
    let mut v = vault();
    v.add("GitHub", "ada", "pw").unwrap();
    let incoming = PasswordEntry {
        service: "github".to_string(),
        username: "eve".to_string(),
        password: "other".to_string(),
        url: String::new(),
        notes: String::new(),
    };
    v.replace_entry(incoming.clone());
    assert_eq!(v.entries().len(), 1);
    assert_eq!(v.get("GITHUB").unwrap().username, "eve");
    let taken = err(v.absorb_renamed(incoming.clone(), " GITHUB "));
    assert_eq!(taken, StashError::DuplicateService { service: "GITHUB".to_string() });
    let (from, to) = v.absorb_renamed(incoming, " github-2 ").unwrap();
    assert_eq!((from.as_str(), to.as_str()), ("github", "github-2"));
    assert_eq!(v.entries().len(), 2);
    assert_eq!(v.get("github-2").unwrap().password, "other");
}
