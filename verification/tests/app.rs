use std::collections::HashMap;

use pwstash::app::{App, ConflictDecision, Mode, Outcome, Request, SaveTarget, TransferKind};
use pwstash::error::StashError;
use pwstash::handler::{handle_key_events, KeyCode, KeyEvent};
use pwstash::persistence::VaultFile;
use pwstash::vault::{PasswordEntry, Vault};

/// Vault files by path: what a driver of the state machine keeps on disk.
type Disk = HashMap<String, Vec<u8>>;

fn entries_to_json(entries: &[PasswordEntry]) -> Vec<u8> {
    let mut list = Vec::new();
    for e in entries {
        let mut obj = serde_json::Map::new();
        obj.insert("service".to_string(), serde_json::Value::String(e.service.clone()));
        obj.insert("username".to_string(), serde_json::Value::String(e.username.clone()));
        obj.insert("password".to_string(), serde_json::Value::String(e.password.clone()));
        if !e.url.is_empty() {
            obj.insert("url".to_string(), serde_json::Value::String(e.url.clone()));
        }
        if !e.notes.is_empty() {
            obj.insert("notes".to_string(), serde_json::Value::String(e.notes.clone()));
        }
        list.push(serde_json::Value::Object(obj));
    }
    serde_json::to_vec(&serde_json::Value::Array(list)).unwrap()
}

fn entries_from_json(bytes: &[u8]) -> Vec<PasswordEntry> {
    let value: serde_json::Value = serde_json::from_slice(bytes).unwrap();
    let field = |v: &serde_json::Value, k: &str| -> String {
        v.get(k).and_then(|x| x.as_str()).unwrap_or("").to_string()
    };
    value
        .as_array()
        .unwrap()
        .iter()
        .map(|v| PasswordEntry {
            service: field(v, "service"),
            username: field(v, "username"),
            password: field(v, "password"),
            url: field(v, "url"),
            notes: field(v, "notes"),
        })
        .collect()
}

fn save(v: &Vault, disk: &mut Disk) -> Result<(), StashError> {
    let plaintext = entries_to_json(v.entries());
    let bytes = v.seal(&plaintext)?.encode();
    disk.insert(v.path().to_string(), bytes);
    Ok(())
}

fn open(path: &str, disk: &Disk, master: &str) -> Result<Vault, StashError> {
    let bytes = disk.get(path).ok_or(StashError::FileNotFound)?;
    let file = VaultFile::decode(bytes)?;
    let unsealed = Vault::unseal(&file, master)?;
    let entries = entries_from_json(&unsealed.plaintext);
    Ok(Vault::from_parts(path, file.salt, unsealed.key, entries))
}

fn perform(request: Request, app: &App, disk: &mut Disk) -> Outcome {
    match request {
        Request::Save(SaveTarget::Main) => Outcome::Saved(save(&app.vault, disk)),
        Request::Save(SaveTarget::TransferDest) => match app.transfer_dest() {
            Some(d) => Outcome::Saved(save(d, disk)),
            None => Outcome::Saved(Ok(())),
        },
        Request::CopyToClipboard(_) | Request::ClearClipboard => Outcome::Copied(Ok(())),
        Request::ProbePath(p) => Outcome::Probed(disk.contains_key(&p)),
        Request::OpenVault { path, master } => Outcome::Opened(open(&path, disk, &master)),
        Request::ReopenVault { master } => {
            Outcome::Opened(open(app.vault.path(), disk, &master))
        }
    }
}

/// Carries out what the state machine asked for until it waits for nothing.
fn drive(app: &mut App, disk: &mut Disk) {
    loop {
        for request in app.take_outbox() {
            let _ = perform(request, app, disk);
        }
        match app.take_awaiting() {
            Some(request) => {
                let outcome = perform(request, app, disk);
                app.complete(outcome);
            }
            None => break,
        }
    }
}

fn app_with_entries() -> (App, Disk) {
    let mut disk = Disk::new();
    let mut vault = Vault::create("t.stash", "master", false).unwrap();
    vault.add("github", "ada", "gh-pass").unwrap();
    vault.add("mail", "ada", "mail-pass").unwrap();
    save(&vault, &mut disk).unwrap();
    (App::new(vault), disk)
}

fn source_vault(entries: &[(&str, &str, &str)]) -> Vault {
    let mut source = Vault::create("src.stash", "src-secret", false).unwrap();
    for (s, u, p) in entries {
        source.add(s, u, p).unwrap();
    }
    source
}

fn key(code: KeyCode) -> KeyEvent {
    KeyEvent { code, ctrl: false, shift: false }
}

fn press(app: &mut App, disk: &mut Disk, code: KeyCode) {
    handle_key_events(key(code), app).unwrap();
    drive(app, disk);
}

#[test]
fn navigation_wraps() {
    let (mut app, _disk) = app_with_entries();
    assert_eq!(app.selected_entry().unwrap().service, "github");
    app.select_next();
    assert_eq!(app.selected_entry().unwrap().service, "mail");
    app.select_next();
    assert_eq!(app.selected_entry().unwrap().service, "github");
    app.select_prev();
    assert_eq!(app.selected_entry().unwrap().service, "mail");
}

#[test]
fn filter_narrows_list() {
    let (mut app, _disk) = app_with_entries();
    app.filter = "mail".into();
    app.selected = 0;
    app.sync_list_state();
    assert_eq!(app.filtered_indices().len(), 1);
    assert_eq!(app.selected_entry().unwrap().service, "mail");
}

#[test]
fn add_via_form() {
    let (mut app, mut disk) = app_with_entries();
    app.begin_add();
    app.form.service = "work".into();
    app.form.username = "dev".into();
    app.form.password = "secret".into();
    app.form.url = "https://work.example".into();
    app.form.notes = "vpn".into();
    app.submit_form().unwrap();
    drive(&mut app, &mut disk);
    assert_eq!(app.mode, Mode::List);
    let entry = app.vault.get("work").unwrap();
    assert_eq!(entry.url, "https://work.example");
    assert_eq!(entry.notes, "vpn");
}

#[test]
fn edit_via_form() {
    let (mut app, mut disk) = app_with_entries();
    app.begin_edit();
    assert_eq!(app.mode, Mode::Edit);
    app.form.username = "new".into();
    app.form.password = "newpass".into();
    app.submit_form().unwrap();
    drive(&mut app, &mut disk);
    let entry = app.vault.get("github").unwrap();
    assert_eq!(entry.username, "new");
    assert_eq!(entry.password, "newpass");
}

#[test]
fn mark_toggles_selection() {
    let (mut app, _disk) = app_with_entries();
    assert!(!app.is_marked("github"));
    app.toggle_mark();
    assert!(app.is_marked("github"));
    app.toggle_mark();
    assert!(!app.is_marked("github"));
}

#[test]
fn rename_via_form() {
    let (mut app, mut disk) = app_with_entries();
    app.begin_rename();
    assert_eq!(app.mode, Mode::Rename);
    app.form.service = "gh".into();
    app.submit_form().unwrap();
    drive(&mut app, &mut disk);
    assert_eq!(app.mode, Mode::List);
    assert!(app.vault.get("github").is_none());
    assert!(app.vault.get("gh").is_some());
}

#[test]
fn edit_without_password_keeps_secret() {
    let (mut app, mut disk) = app_with_entries();
    app.begin_edit();
    app.form.username = "ada2".into();
    app.form.url = "https://github.com".into();
    app.form.notes = "2fa".into();
    app.submit_form().unwrap();
    drive(&mut app, &mut disk);
    let entry = app.vault.get("github").unwrap();
    assert_eq!(entry.username, "ada2");
    assert_eq!(entry.password, "gh-pass");
    assert_eq!(entry.url, "https://github.com");
    assert_eq!(entry.notes, "2fa");
}

#[test]
fn delete_via_confirm() {
    let (mut app, mut disk) = app_with_entries();
    app.begin_delete();
    assert_eq!(app.mode, Mode::ConfirmDelete);
    app.confirm_delete().unwrap();
    drive(&mut app, &mut disk);
    assert!(app.vault.get("github").is_none());
    assert_eq!(app.mode, Mode::List);
}

#[test]
fn reveal_toggles() {
    let (mut app, _disk) = app_with_entries();
    assert!(!app.revealed);
    app.toggle_reveal();
    assert!(app.revealed);
    app.toggle_reveal();
    assert!(!app.revealed);
}

#[test]
fn cancel_search_clears_filter() {
    let (mut app, _disk) = app_with_entries();
    app.begin_search();
    app.type_char('g');
    assert_eq!(app.filter, "g");
    app.cancel_mode();
    assert!(app.filter.is_empty());
    assert_eq!(app.mode, Mode::List);
}

#[test]
fn paste_into_form() {
    let (mut app, _disk) = app_with_entries();
    app.begin_add();
    app.handle_paste("github-work");
    assert_eq!(app.form.service, "github-work");
}

#[test]
fn quit() {
    let (mut app, _disk) = app_with_entries();
    app.quit();
    assert!(!app.running);
}

#[test]
fn import_setup_has_two_fields() {
    let (mut app, _disk) = app_with_entries();
    app.begin_import();
    assert_eq!(app.form.field_count(app.mode, app.transfer_kind), 2);
    app.begin_export(false);
    assert_eq!(app.form.field_count(app.mode, app.transfer_kind), 3);
}

#[test]
fn import_name_clash_prompts_even_when_identical() {
    let (mut app, mut disk) = app_with_entries();
    let source = source_vault(&[("github", "ada", "gh-pass"), ("mail", "ada", "mail-pass")]);
    app.transfer_kind = Some(TransferKind::Import);
    app.start_ingest(source.entries().to_vec(), false);
    drive(&mut app, &mut disk);
    assert_eq!(app.mode, Mode::TransferConflict);
    assert_eq!(
        app.conflict_incoming.as_ref().map(|e| e.service.as_str()),
        Some("github")
    );
}

#[test]
fn conflict_rename_form_prefills_free_name() {
    let (mut app, mut disk) = app_with_entries();
    let source = source_vault(&[("github", "eve", "other"), ("github-1", "taken", "pw")]);
    app.transfer_kind = Some(TransferKind::Import);
    app.start_ingest(source.entries().to_vec(), false);
    drive(&mut app, &mut disk);
    assert_eq!(app.mode, Mode::TransferConflict);
    app.begin_conflict_rename();
    assert_eq!(app.mode, Mode::TransferRename);
    assert_eq!(app.form.service, "github-2");
    app.submit_form().unwrap();
    drive(&mut app, &mut disk);
    assert_eq!(app.mode, Mode::List);
    assert_eq!(app.vault.get("github").unwrap().username, "ada");
    assert_eq!(app.vault.get("github-2").unwrap().username, "eve");
    assert_eq!(app.vault.get("github-1").unwrap().username, "taken");
}

#[test]
fn conflict_rename_rejects_taken_name() {
    let (mut app, mut disk) = app_with_entries();
    let source = source_vault(&[("github", "eve", "other")]);
    app.transfer_kind = Some(TransferKind::Import);
    app.start_ingest(source.entries().to_vec(), false);
    drive(&mut app, &mut disk);
    app.begin_conflict_rename();
    assert_eq!(app.form.service, "github-1");
    app.form.service = "mail".into();
    app.submit_form().unwrap();
    drive(&mut app, &mut disk);
    assert_eq!(app.mode, Mode::TransferRename);
    assert!(app.vault.get("github").unwrap().username == "ada");
    assert!(app.vault.get("mail").unwrap().username == "ada");
}

#[test]
fn generate_fills_password_field() {
    let (mut app, _disk) = app_with_entries();
    app.begin_add_generated();
    assert_eq!(app.mode, Mode::Add);
    assert_eq!(app.form.password.len(), pwstash::generate::DEFAULT_LENGTH);
}

#[test]
fn change_master_via_form() {
    let (mut app, mut disk) = app_with_entries();
    let path = app.vault.path().to_string();
    app.begin_change_master();
    app.form.password = "fresh-master".into();
    app.form.confirm = "fresh-master".into();
    app.submit_form().unwrap();
    drive(&mut app, &mut disk);
    assert_eq!(app.mode, Mode::List);
    assert!(open(&path, &disk, "master").is_err());
    let opened = open(&path, &disk, "fresh-master").unwrap();
    assert!(opened.get("github").is_some());
}

#[test]
fn change_master_mismatch_stays_in_form() {
    let (mut app, mut disk) = app_with_entries();
    app.begin_change_master();
    app.form.password = "a".into();
    app.form.confirm = "b".into();
    app.submit_form().unwrap();
    drive(&mut app, &mut disk);
    assert_eq!(app.mode, Mode::ChangeMaster);
}

#[test]
fn idle_tick_locks_and_unlock_restores() {
    let (mut app, mut disk) = app_with_entries();
    app.expire_idle_for_test();
    let now = app.now();
    app.tick(now);
    drive(&mut app, &mut disk);
    assert_eq!(app.mode, Mode::Locked);
    assert!(app.vault.is_locked());
    assert!(app.vault.entries().is_empty());

    app.form.password = "wrong".into();
    app.submit_form().unwrap();
    drive(&mut app, &mut disk);
    assert_eq!(app.mode, Mode::Locked);

    app.form.password = "master".into();
    app.submit_form().unwrap();
    drive(&mut app, &mut disk);
    assert_eq!(app.mode, Mode::List);
    assert!(app.vault.get("github").is_some());
}

#[test]
fn help_mode_toggles() {
    let (mut app, _disk) = app_with_entries();
    app.begin_help();
    assert_eq!(app.mode, Mode::Help);
    app.cancel_mode();
    assert_eq!(app.mode, Mode::List);
}

fn handler_app() -> (App, Disk) {
    let mut disk = Disk::new();
    let mut vault = Vault::create("h.stash", "master", false).unwrap();
    vault.add("github", "ada", "pw").unwrap();
    save(&vault, &mut disk).unwrap();
    (App::new(vault), disk)
}

#[test]
fn list_keys() {
    let (mut app, mut disk) = handler_app();
    press(&mut app, &mut disk, KeyCode::Char('j'));
    assert_eq!(app.selected_entry().unwrap().service, "github");
    press(&mut app, &mut disk, KeyCode::Char('a'));
    assert_eq!(app.mode, Mode::Add);
    press(&mut app, &mut disk, KeyCode::Esc);
    assert_eq!(app.mode, Mode::List);
    press(&mut app, &mut disk, KeyCode::Char('q'));
    assert!(!app.running);
}

#[test]
fn help_and_generate_keys() {
    let (mut app, mut disk) = handler_app();
    press(&mut app, &mut disk, KeyCode::Char('?'));
    assert_eq!(app.mode, Mode::Help);
    press(&mut app, &mut disk, KeyCode::Esc);
    assert_eq!(app.mode, Mode::List);
    press(&mut app, &mut disk, KeyCode::Char('g'));
    assert_eq!(app.mode, Mode::Add);
    assert!(app.form.password.len() >= pwstash::generate::MIN_LENGTH);
    press(&mut app, &mut disk, KeyCode::Esc);
    press(&mut app, &mut disk, KeyCode::Char('r'));
    assert_eq!(app.mode, Mode::Rename);
    press(&mut app, &mut disk, KeyCode::Esc);
    press(&mut app, &mut disk, KeyCode::Char('P'));
    assert_eq!(app.mode, Mode::ChangeMaster);
    press(&mut app, &mut disk, KeyCode::Esc);
    app.lock();
    press(&mut app, &mut disk, KeyCode::Char('q'));
    assert!(!app.running);
}

// Own tests of the state machine's rules.

#[test]
fn ctrl_c_quits_in_any_mode() {
    let (mut app, mut disk) = handler_app();
    press(&mut app, &mut disk, KeyCode::Char('a'));
    handle_key_events(KeyEvent { code: KeyCode::Char('c'), ctrl: true, shift: false }, &mut app)
        .unwrap();
    assert!(!app.running);
}

#[test]
fn add_duplicate_keeps_form_and_vault() {
    let (mut app, mut disk) = app_with_entries();
    app.begin_add();
    app.form.service = "GitHub".into();
    app.form.username = "x".into();
    app.form.password = "y".into();
    app.submit_form().unwrap();
    drive(&mut app, &mut disk);
    assert_eq!(app.mode, Mode::Add);
    assert_eq!(app.vault.entries().len(), 2);
    assert_eq!(app.form.service, "GitHub");
    let status = app.status.as_ref().unwrap().0.clone();
    assert_eq!(status, "an entry for GitHub already exists");
}

#[test]
fn add_reports_status_and_saves() {
    let (mut app, mut disk) = app_with_entries();
    app.begin_add();
    app.form.service = "work".into();
    app.form.username = "dev".into();
    app.form.password = "secret".into();
    app.submit_form().unwrap();
    drive(&mut app, &mut disk);
    assert_eq!(app.status.as_ref().unwrap().0, "Added work");
    let reopened = open("t.stash", &disk, "master").unwrap();
    assert_eq!(reopened.get("work").unwrap().password, "secret");
    assert_eq!(app.selected_entry().unwrap().service, "work");
}

#[test]
fn copy_password_queues_clipboard_and_clears_later() {
    let (mut app, mut disk) = app_with_entries();
    app.copy_password().unwrap();
    assert!(matches!(app.awaiting, Some(Request::CopyToClipboard(ref s)) if s == "gh-pass"));
    drive(&mut app, &mut disk);
    let clear_at = app.clipboard_clear_at.unwrap();
    assert_eq!(clear_at, app.now() + pwstash::clipboard::CLIPBOARD_TTL_MS);
    app.tick(clear_at);
    assert!(app.outbox.iter().any(|r| matches!(r, Request::ClearClipboard)));
    assert!(app.clipboard_clear_at.is_none());
}

#[test]
fn skip_conflict_then_finish_reports_counts() {
    let (mut app, mut disk) = app_with_entries();
    let source = source_vault(&[("github", "eve", "other"), ("bank", "bo", "b")]);
    app.transfer_kind = Some(TransferKind::Import);
    app.start_ingest(source.entries().to_vec(), false);
    drive(&mut app, &mut disk);
    assert_eq!(app.mode, Mode::TransferConflict);
    app.resolve_conflict(ConflictDecision::Skip).unwrap();
    drive(&mut app, &mut disk);
    assert_eq!(app.mode, Mode::List);
    assert_eq!(app.status.as_ref().unwrap().0, "Copied 1, overwrote 0, renamed 0, skipped 1");
    assert_eq!(app.vault.get("github").unwrap().username, "ada");
    assert_eq!(app.vault.get("bank").unwrap().username, "bo");
}

#[test]
fn overwrite_conflict_replaces_entry() {
    let (mut app, mut disk) = app_with_entries();
    let source = source_vault(&[("github", "eve", "other")]);
    app.transfer_kind = Some(TransferKind::Import);
    app.start_ingest(source.entries().to_vec(), false);
    drive(&mut app, &mut disk);
    app.resolve_conflict(ConflictDecision::Overwrite).unwrap();
    drive(&mut app, &mut disk);
    assert_eq!(app.mode, Mode::List);
    assert_eq!(app.vault.get("github").unwrap().username, "eve");
    assert_eq!(app.vault.entries().len(), 2);
}

#[test]
fn export_move_removes_entries_from_source() {
    let (mut app, mut disk) = app_with_entries();
    app.toggle_mark();
    app.begin_export(true);
    app.form.service = "dest.stash".into();
    app.form.password = "dest-secret".into();
    app.form.confirm = "dest-secret".into();
    app.submit_form().unwrap();
    drive(&mut app, &mut disk);
    assert_eq!(app.mode, Mode::List);
    assert!(app.vault.get("github").is_none());
    assert!(app.vault.get("mail").is_some());
    let dest = open("dest.stash", &disk, "dest-secret").unwrap();
    assert_eq!(dest.get("github").unwrap().password, "gh-pass");
    let main = open("t.stash", &disk, "master").unwrap();
    assert!(main.get("github").is_none());
}

#[test]
fn lock_clears_secrets_from_state() {
    let (mut app, _disk) = app_with_entries();
    app.begin_search();
    app.type_char('m');
    app.lock();
    assert_eq!(app.mode, Mode::Locked);
    assert!(app.filter.is_empty());
    assert!(app.vault.entries().is_empty());
    assert!(app.outbox.iter().any(|r| matches!(r, Request::ClearClipboard)));
}

#[test]
fn delete_key_asks_and_n_cancels() {
    let (mut app, mut disk) = handler_app();
    press(&mut app, &mut disk, KeyCode::Char('d'));
    assert_eq!(app.mode, Mode::ConfirmDelete);
    press(&mut app, &mut disk, KeyCode::Char('n'));
    assert_eq!(app.mode, Mode::List);
    assert!(app.vault.get("github").is_some());
    press(&mut app, &mut disk, KeyCode::Char('d'));
    press(&mut app, &mut disk, KeyCode::Char('y'));
    assert_eq!(app.mode, Mode::List);
    assert!(app.vault.get("github").is_none());
    let reopened = open("h.stash", &disk, "master").unwrap();
    assert!(reopened.entries().is_empty());
}

#[test]
fn import_key_opens_setup_and_abort_ends_transfer() {
    let (mut app, mut disk) = handler_app();
    let mut source = Vault::create("other.stash", "src-secret", false).unwrap();
    source.add("github", "eve", "x").unwrap();
    save(&source, &mut disk).unwrap();
    press(&mut app, &mut disk, KeyCode::Char('I'));
    assert_eq!(app.mode, Mode::TransferSetup);
    assert_eq!(app.transfer_kind, Some(TransferKind::Import));
    app.handle_paste("other.stash");
    press(&mut app, &mut disk, KeyCode::Tab);
    app.handle_paste("src-secret");
    press(&mut app, &mut disk, KeyCode::Enter);
    assert_eq!(app.mode, Mode::TransferConflict);
    press(&mut app, &mut disk, KeyCode::Char('a'));
    assert_eq!(app.mode, Mode::List);
    assert_eq!(app.transfer_kind, None);
    assert_eq!(app.vault.get("github").unwrap().username, "ada");
}

#[test]
fn navigation_keys_wrap() {
    let (mut app, mut disk) = app_with_entries();
    press(&mut app, &mut disk, KeyCode::Char('k'));
    assert_eq!(app.selected_entry().unwrap().service, "mail");
    press(&mut app, &mut disk, KeyCode::Down);
    assert_eq!(app.selected_entry().unwrap().service, "github");
}

#[test]
fn backspace_edits_filter_and_focused_field() {
    let (mut app, mut disk) = app_with_entries();
    app.begin_search();
    app.type_char('m');
    app.type_char('x');
    app.backspace();
    assert_eq!(app.filter, "m");
    app.cancel_mode();
    app.begin_add();
    app.handle_paste("abc");
    press(&mut app, &mut disk, KeyCode::Backspace);
    assert_eq!(app.form.service, "ab");
    press(&mut app, &mut disk, KeyCode::Tab);
    app.type_char('u');
    assert_eq!(app.form.username, "u");
    press(&mut app, &mut disk, KeyCode::BackTab);
    app.type_char('c');
    assert_eq!(app.form.service, "abc");
}

#[test]
fn skip_keeps_destination_and_counts_when_more_remain() {
    let (mut app, mut disk) = app_with_entries();
    let source = source_vault(&[("github", "eve", "other"), ("mail", "bo", "m")]);
    app.transfer_kind = Some(TransferKind::Import);
    app.start_ingest(source.entries().to_vec(), false);
    drive(&mut app, &mut disk);
    app.resolve_conflict(ConflictDecision::Skip).unwrap();
    drive(&mut app, &mut disk);
    assert_eq!(app.mode, Mode::TransferConflict);
    assert_eq!(app.transfer_report.skipped, vec!["github".to_string()]);
    assert_eq!(app.vault.get("github").unwrap().username, "ada");
    app.resolve_conflict(ConflictDecision::Skip).unwrap();
    assert_eq!(app.status.as_ref().unwrap().0, "Copied 0, overwrote 0, renamed 0, skipped 2");
    assert_eq!(app.vault.get("mail").unwrap().username, "ada");
}

#[test]
fn enter_and_p_reveal_and_ctrl_g_generates_in_form() {
    let (mut app, mut disk) = handler_app();
    press(&mut app, &mut disk, KeyCode::Enter);
    assert!(app.revealed);
    press(&mut app, &mut disk, KeyCode::Char('p'));
    assert!(!app.revealed);
    press(&mut app, &mut disk, KeyCode::Char('a'));
    handle_key_events(KeyEvent { code: KeyCode::Char('g'), ctrl: true, shift: false }, &mut app)
        .unwrap();
    assert_eq!(app.form.password.len(), pwstash::generate::DEFAULT_LENGTH);
    assert_eq!(app.mode, Mode::Add);
}

#[test]
fn enter_walks_the_form_then_submits() {
    let (mut app, mut disk) = handler_app();
    press(&mut app, &mut disk, KeyCode::Char('a'));
    for (text, field) in [("work", 0), ("dev", 1), ("pw", 2), ("", 3), ("", 4)] {
        assert_eq!(app.form.field, field);
        app.handle_paste(text);
        press(&mut app, &mut disk, KeyCode::Enter);
    }
    assert_eq!(app.mode, Mode::List);
    assert_eq!(app.vault.get("work").unwrap().username, "dev");
}

#[test]
fn enter_on_lock_screen_reopens() {
    let (mut app, mut disk) = handler_app();
    app.lock();
    drive(&mut app, &mut disk);
    app.handle_paste("master");
    press(&mut app, &mut disk, KeyCode::Enter);
    assert_eq!(app.mode, Mode::List);
    assert!(app.vault.get("github").is_some());
}
