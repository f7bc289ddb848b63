use pwstash::report::{entry_lines, listing_lines};
use pwstash::vault::PasswordEntry;

fn entry(service: &str, username: &str, password: &str, url: &str, notes: &str) -> PasswordEntry {
    PasswordEntry {
        service: service.to_string(),
        username: username.to_string(),
        password: password.to_string(),
        url: url.to_string(),
        notes: notes.to_string(),
    }
}

#[test]
fn empty_listing_says_no_entries() {
    assert_eq!(listing_lines(&[]), vec!["No entries.".to_string()]);
}

#[test]
fn listing_shows_service_and_username_only() {
    let lines = listing_lines(&[
        entry("github", "ada", "hunter2", "", "2fa"),
        entry("mail", "bo", "pw", "https://mail.example", ""),
    ]);
    assert_eq!(lines, vec!["github\tada", "mail\tbo"]);
    assert!(lines.iter().all(|l| !l.contains("hunter2") && !l.contains("2fa") && !l.contains("mail.example")));
}

#[test]
fn get_lines_show_optional_fields_when_present() {
    assert_eq!(
        entry_lines(&entry("github", "ada", "hunter2", "", "")),
        vec!["Username: ada", "Password: hunter2"]
    );
    assert_eq!(
        entry_lines(&entry("mail", "bo", "pw", "https://m", "work")),
        vec!["Username: bo", "Password: pw", "URL: https://m", "Notes: work"]
    );
}
