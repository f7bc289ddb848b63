//! What the terminal UI shows: the rows of the entry list, the details of
//! the selected entry with its password hidden unless revealed, masked form
//! fields, and the key help of each mode.
use vstd::prelude::*;

use crate::app::{spec_filtered, App, Mode};
use crate::text;
use crate::vault::{string_views, EntryView, PasswordEntry};

verus! {

/// Whether `service` is marked, ASCII case aside.
pub open spec fn spec_is_marked(marked: Seq<String>, service: Seq<char>) -> bool {
    exists|k: int| 0 <= k < marked.len() && text::eq_ignore_ascii_case(#[trigger] marked[k]@, service)
}

/// A row of the entry list: the mark, the service and the username.
pub open spec fn row_text(e: EntryView, marked: bool) -> Seq<char> {
    (if marked {
        "*"@
    } else {
        " "@
    }) + " "@ + e.service + "  ("@ + e.username + ")"@
}

/// The rows of the entry list: one per entry that the filter lets through.
pub open spec fn spec_rows(app: App) -> Seq<Seq<char>> {
    spec_filtered(app.vault@.entries, app.filter@).map_values(
        |i: int|
            row_text(
                app.vault@.entries[i],
                spec_is_marked(app.marked@, app.vault@.entries[i].service),
            ),
    )
}

/// What stands in place of a hidden password.
pub open spec fn hidden_password() -> Seq<char> {
    "********"@
}

/// The labelled lines of an entry's details; the password shows only when
/// revealed, and the URL and notes only when they are not empty.
pub open spec fn spec_details(e: EntryView, revealed: bool) -> Seq<(Seq<char>, Seq<char>)> {
    let base = seq![
        ("Service:  "@, e.service),
        ("Username: "@, e.username),
        ("Password: "@, if revealed {
            e.password
        } else {
            hidden_password()
        }),
    ];
    let with_url = if e.url.len() > 0 {
        base.push(("URL:      "@, e.url))
    } else {
        base
    };
    if e.notes.len() > 0 {
        with_url.push(("Notes:    "@, e.notes))
    } else {
        with_url
    }
}

/// The views of a list of labelled lines.
pub open spec fn pair_views(v: Seq<(String, String)>) -> Seq<(Seq<char>, Seq<char>)> {
    v.map_values(|p: (String, String)| (p.0@, p.1@))
}

/// As many `*` as `s` has characters.
pub open spec fn spec_masked(s: Seq<char>) -> Seq<char> {
    Seq::new(s.len(), |i: int| '*')
}

/// The key help of each mode.
pub open spec fn spec_key_help(mode: Mode) -> Seq<char> {
    match mode {
        Mode::List => "[j/k] move  [/] search  [p] reveal  [c]opy  [P] master  [?] help  [q]uit"@,
        Mode::Search => "type to filter  Enter keep  Esc clear"@,
        Mode::Add | Mode::Edit => "Tab next  Ctrl-G generate  Enter save  Esc cancel"@,
        Mode::ChangeMaster => "Tab next  Enter save  Esc cancel"@,
        Mode::Rename | Mode::TransferRename => "Enter save  Esc cancel"@,
        Mode::ConfirmDelete => "[y] delete  [n] cancel"@,
        Mode::Help => "Esc or ? close help"@,
        Mode::Locked => "Enter unlock  q quit"@,
        Mode::TransferSetup => "Tab next  Enter continue  Esc cancel"@,
        Mode::TransferConflict => "[s]kip  [o]verwrite  [r]ename  [a]bort"@,
    }
}

/// The text of one row of the entry list.
fn make_row(e: &PasswordEntry, marked: bool) -> (r: String)
    ensures
        r@ == row_text(e@, marked),
{
    let mut out = if marked {
        text::to_owned("*")
    } else {
        text::to_owned(" ")
    };
    out.append(" ");
    out.append(e.service.as_str());
    out.append("  (");
    out.append(e.username.as_str());
    out.append(")");
    out
}

/// The rows of the entry list, in the order the filter lets entries through.
pub fn list_rows(app: &App) -> (r: Vec<String>)
    ensures
        string_views(r@) == spec_rows(*app),
{
    let indices = app.filtered_indices();
    let entries = app.vault.entries();
    let ghost idx = spec_filtered(app.vault@.entries, app.filter@);
    proof {
        crate::app::lemma_filtered_in_range(app.vault@.entries, app.filter@);
    }
    let mut out: Vec<String> = Vec::new();
    let mut k: usize = 0;
    while k < indices.len()
        invariant
            k <= indices@.len(),
            indices@.len() == idx.len(),
            idx == spec_filtered(app.vault@.entries, app.filter@),
            forall|m: int| 0 <= m < indices@.len() ==> #[trigger] indices@[m] as int == idx[m],
            crate::vault::entry_views(entries@) == app.vault@.entries,
            forall|m: int| 0 <= m < idx.len() ==> 0 <= #[trigger] idx[m] < app.vault@.entries.len(),
            string_views(out@) =~= spec_rows(*app).take(k as int),
        decreases indices@.len() - k,
    {
        let i = indices[k];
        assert(0 <= idx[k as int] < app.vault@.entries.len());
        let e = &entries[i];
        proof {
            assert(e@ == app.vault@.entries[i as int]);
        }
        let marked = app.is_marked(e.service.as_str());
        let row = make_row(e, marked);
        let ghost before = out@;
        out.push(row);
        proof {
            assert(string_views(out@) =~= string_views(before).push(row@));
            assert(spec_rows(*app).take(k + 1) =~= spec_rows(*app).take(k as int).push(
                spec_rows(*app)[k as int],
            ));
        }
        k = k + 1;
    }
    proof {
        assert(spec_rows(*app).take(k as int) =~= spec_rows(*app));
    }
    out
}

/// The details of the selected entry, or nothing when no entry is selected.
pub fn detail_lines(app: &App) -> (r: Vec<(String, String)>)
    ensures
        match app.spec_selected_index() {
            Some(i) => pair_views(r@) == spec_details(app.vault@.entries[i], app.revealed),
            None => r@.len() == 0,
        },
{
    let mut out: Vec<(String, String)> = Vec::new();
    let entry = match app.selected_entry() {
        Some(e) => e,
        None => {
            return out;
        },
    };
    out.push((text::to_owned("Service:  "), entry.service.clone()));
    out.push((text::to_owned("Username: "), entry.username.clone()));
    let password = if app.revealed {
        entry.password.clone()
    } else {
        text::to_owned("********")
    };
    out.push((text::to_owned("Password: "), password));
    if !entry.url.as_str().is_empty() {
        out.push((text::to_owned("URL:      "), entry.url.clone()));
    }
    if !entry.notes.as_str().is_empty() {
        out.push((text::to_owned("Notes:    "), entry.notes.clone()));
    }
    proof {
        assert(pair_views(out@) =~= spec_details(entry@, app.revealed));
    }
    out
}

/// As many `*` as `s` has characters: how a form shows a password.
pub fn masked(s: &str) -> (r: String)
    ensures
        r@ == spec_masked(s@),
{
    let n = s.unicode_len();
    let mut out = String::new();
    let mut k: usize = 0;
    while k < n
        invariant
            k <= n,
            n == s@.len(),
            out@ =~= Seq::new(k as nat, |i: int| '*'),
        decreases n - k,
    {
        text::push_char(&mut out, '*');
        k = k + 1;
    }
    out
}

/// The key help of a mode.
pub fn key_help(mode: Mode) -> (r: &'static str)
    ensures
        r@ == spec_key_help(mode),
{
    match mode {
        Mode::List => "[j/k] move  [/] search  [p] reveal  [c]opy  [P] master  [?] help  [q]uit",
        Mode::Search => "type to filter  Enter keep  Esc clear",
        Mode::Add | Mode::Edit => "Tab next  Ctrl-G generate  Enter save  Esc cancel",
        Mode::ChangeMaster => "Tab next  Enter save  Esc cancel",
        Mode::Rename | Mode::TransferRename => "Enter save  Esc cancel",
        Mode::ConfirmDelete => "[y] delete  [n] cancel",
        Mode::Help => "Esc or ? close help",
        Mode::Locked => "Enter unlock  q quit",
        Mode::TransferSetup => "Tab next  Enter continue  Esc cancel",
        Mode::TransferConflict => "[s]kip  [o]verwrite  [r]ename  [a]bort",
    }
}

/// The details never show a hidden password: whatever two entries' passwords
/// are, their details agree while the password is not revealed.
pub proof fn law_hidden_details_ignore_password(a: EntryView, b: EntryView)
    requires
        a.service == b.service,
        a.username == b.username,
        a.url == b.url,
        a.notes == b.notes,
    ensures
        spec_details(a, false) == spec_details(b, false),
{
}

} // verus!
