use pwstash::app::{App, Mode};
use pwstash::screen::{detail_lines, key_help, list_rows, masked};
use pwstash::vault::Vault;

fn app() -> App {
    let mut vault = Vault::create("ui.stash", "master", false).unwrap();
    vault
        .add_full("github", "ada", "secret", "https://github.com", "work")
        .unwrap();
    vault.add("mail", "ada", "secret2").unwrap();
    App::new(vault)
}

#[test]
fn rows_show_marks_and_follow_the_filter() {
    let mut app = app();
    assert_eq!(list_rows(&app), vec!["  github  (ada)", "  mail  (ada)"]);
    app.toggle_mark();
    assert_eq!(list_rows(&app)[0], "* github  (ada)");
    app.filter = "MAIL".to_string();
    app.sync_list_state();
    assert_eq!(list_rows(&app), vec!["  mail  (ada)"]);
}

#[test]
fn details_hide_the_password_until_revealed() {
    let mut app = app();
    let hidden = detail_lines(&app);
    assert_eq!(hidden.len(), 5);
    assert_eq!(hidden[2], ("Password: ".to_string(), "********".to_string()));
    assert_eq!(hidden[3], ("URL:      ".to_string(), "https://github.com".to_string()));
    app.toggle_reveal();
    assert_eq!(detail_lines(&app)[2].1, "secret");
    app.select_next();
    let mail = detail_lines(&app);
    assert_eq!(mail.len(), 3);
    assert_eq!(mail[2].1, "********");
}

#[test]
fn no_details_without_a_selection() {
    let mut app = app();
    app.filter = "nothing".to_string();
    app.sync_list_state();
    assert!(detail_lines(&app).is_empty());
    assert!(list_rows(&app).is_empty());
}

#[test]
fn masks_and_help() {
    assert_eq!(masked("pässword"), "********");
    assert_eq!(masked(""), "");
    assert_eq!(key_help(Mode::ConfirmDelete), "[y] delete  [n] cancel");
    assert_eq!(key_help(Mode::TransferConflict), "[s]kip  [o]verwrite  [r]ename  [a]bort");
}
