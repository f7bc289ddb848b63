//! Which key does what in each mode of the terminal UI.
use vstd::prelude::*;

use crate::app::{
    add_submitted, conflict_overwritten, conflict_skipped, delete_confirmed, edit_submitted,
    export_started, is_form_mode, mark_toggled, master_submitted, password_generated,
    rename_submitted, spec_active_field, spec_field_count, transfer_rename_submitted,
    transfer_setup_submitted, App, ConflictDecision, Mode, Pending, Request, TransferKind,
};
use crate::error::StashError;

verus! {

/// The keys the UI tells apart.
#[derive(Debug, Clone, Copy, PartialEq, Eq, Structural)]
pub enum KeyCode {
    Char(char),
    Enter,
    Esc,
    Tab,
    BackTab,
    Up,
    Down,
    Backspace,
    Other,
}

/// A key press with the modifiers that matter.
#[derive(Debug, Clone, Copy, PartialEq, Eq, Structural)]
pub struct KeyEvent {
    pub code: KeyCode,
    pub ctrl: bool,
    pub shift: bool,
}

/// Whether the key is Ctrl-C.
pub open spec fn is_interrupt(key: KeyEvent) -> bool {
    key.ctrl && (key.code == KeyCode::Char('c') || key.code == KeyCode::Char('C'))
}

/// Dispatches a key press to the state machine.
pub fn handle_key_events(key_event: KeyEvent, app: &mut App) -> (r: Result<(), StashError>)
    ensures
        r is Ok,
        is_interrupt(key_event) ==> !final(app).running,
        !is_interrupt(key_event) && old(app).mode == Mode::List && (key_event.code == KeyCode::Esc
            || key_event.code == KeyCode::Char('q')) ==> !final(app).running,
        !is_interrupt(key_event) && old(app).mode == Mode::List && key_event.code == KeyCode::Char(
            'a',
        ) ==> final(app).mode == Mode::Add && final(app).form.is_default(),
        !is_interrupt(key_event) && old(app).mode == Mode::List && key_event.code == KeyCode::Char(
            '?',
        ) ==> final(app).mode == Mode::Help,
        !is_interrupt(key_event) && old(app).mode == Mode::List && key_event.code == KeyCode::Char(
            '/',
        ) ==> final(app).mode == Mode::Search,
        !is_interrupt(key_event) && old(app).mode == Mode::List && key_event.code == KeyCode::Char(
            'P',
        ) ==> final(app).mode == Mode::ChangeMaster,
        !is_interrupt(key_event) && old(app).mode == Mode::Help && (key_event.code == KeyCode::Esc
            || key_event.code == KeyCode::Char('q') || key_event.code == KeyCode::Char('?'))
            ==> final(app).mode == Mode::List,
        !is_interrupt(key_event) && old(app).mode == Mode::Help && !(key_event.code == KeyCode::Esc
            || key_event.code == KeyCode::Char('q') || key_event.code == KeyCode::Char('?'))
            ==> *final(app) == *old(app),
        !is_interrupt(key_event) && old(app).mode == Mode::Locked && (key_event.code
            == KeyCode::Esc || key_event.code == KeyCode::Char('q')) ==> !final(app).running,
        !is_interrupt(key_event) && (old(app).mode == Mode::Add || old(app).mode == Mode::Edit
            || old(app).mode == Mode::Search) && key_event.code == KeyCode::Esc ==> final(app).mode
            == Mode::List,
        !is_interrupt(key_event) && old(app).mode == Mode::List && (key_event.code == KeyCode::Down
            || key_event.code == KeyCode::Char('j')) && old(app).spec_visible() > 0 ==> final(
            app).selected == (old(app).selected + 1) % (old(app).spec_visible() as int),
        !is_interrupt(key_event) && old(app).mode == Mode::List && (key_event.code == KeyCode::Up
            || key_event.code == KeyCode::Char('k')) && old(app).spec_visible() > 0 ==> final(
            app).selected == (old(app).selected + old(app).spec_visible() - 1) % (old(
            app).spec_visible() as int),
        !is_interrupt(key_event) && old(app).mode == Mode::List && key_event.code == KeyCode::Char(
            'd',
        ) && old(app).spec_selected_index() is Some ==> final(app).mode == Mode::ConfirmDelete,
        !is_interrupt(key_event) && old(app).mode == Mode::List && key_event.code == KeyCode::Char(
            'I',
        ) ==> final(app).mode == Mode::TransferSetup && final(app).transfer_kind == Some(
            TransferKind::Import,
        ),
        !is_interrupt(key_event) && old(app).mode == Mode::List && key_event.code == KeyCode::Char(
            'g',
        ) ==> final(app).mode == Mode::Add && (crate::generate::is_generated_password(
            final(app).form.password@,
            crate::generate::DEFAULT_LENGTH as nat,
        ) || final(app).form.password@.len() == 0),
        !is_interrupt(key_event) && old(app).mode == Mode::List ==> final(app).vault@ == old(
            app).vault@,
        !is_interrupt(key_event) && old(app).mode == Mode::List && key_event.code == KeyCode::Char(
            'c',
        ) ==> (old(app).spec_selected_index() matches Some(i) ==> (final(app).awaiting matches Some(
            Request::CopyToClipboard(t),
        ) && t@ == old(app).vault@.entries[i].password)),
        !is_interrupt(key_event) && old(app).mode == Mode::List && key_event.code == KeyCode::Char(
            'e',
        ) ==> (old(app).spec_selected_index() matches Some(i) ==> final(app).mode == Mode::Edit
            && final(app).form.service@ == old(app).vault@.entries[i].service),
        !is_interrupt(key_event) && old(app).mode == Mode::List && (key_event.code == KeyCode::Enter
            || (key_event.code == KeyCode::Char('p') && !key_event.shift)) ==> (old(
            app).spec_selected_index() is Some ==> final(app).revealed == !old(app).revealed) && (old(
            app).spec_selected_index() is None ==> final(app).revealed == old(app).revealed),
        !is_interrupt(key_event) && old(app).mode == Mode::List && key_event.code == KeyCode::Char(
            'y',
        ) ==> (old(app).spec_selected_index() matches Some(i) ==> (final(app).awaiting matches Some(
            Request::CopyToClipboard(t),
        ) && t@ == old(app).vault@.entries[i].username)),
        !is_interrupt(key_event) && old(app).mode == Mode::List && key_event.code == KeyCode::Char(
            'r',
        ) ==> (old(app).spec_selected_index() matches Some(i) ==> final(app).mode == Mode::Rename
            && final(app).form.service@ == old(app).vault@.entries[i].service),
        !is_interrupt(key_event) && old(app).mode == Mode::ConfirmDelete && (key_event.code
            == KeyCode::Char('y') || key_event.code == KeyCode::Char('Y') || key_event.code
            == KeyCode::Enter) ==> delete_confirmed(*old(app), *final(app)),
        !is_interrupt(key_event) && (old(app).mode == Mode::Add || old(app).mode == Mode::Edit)
            && key_event.ctrl && (key_event.code == KeyCode::Char('g') || key_event.code
            == KeyCode::Char('G')) ==> password_generated(*old(app), *final(app)) && final(app).mode
            == old(app).mode && final(app).vault@ == old(app).vault@,
        !is_interrupt(key_event) && is_form_mode(old(app).mode) && !(key_event.ctrl && (
        key_event.code == KeyCode::Char('g') || key_event.code == KeyCode::Char('G'))) ==> {
            let n = spec_field_count(old(app).mode, old(app).transfer_kind) as int;
            &&& (key_event.code == KeyCode::Tab || key_event.code == KeyCode::Down) && old(
                app).form.field < usize::MAX ==> final(app).form.field == (old(app).form.field + 1)
                % n && final(app).mode == old(app).mode
            &&& (key_event.code == KeyCode::BackTab || key_event.code == KeyCode::Up) && old(
                app).form.field + n <= usize::MAX ==> final(app).form.field == (old(app).form.field
                + n - 1) % n && final(app).mode == old(app).mode
            &&& key_event.code == KeyCode::Enter && old(app).form.field + 1 < n ==> final(
                app).form.field == old(app).form.field + 1 && final(app).mode == old(app).mode
                && final(app).vault@ == old(app).vault@
            &&& key_event.code == KeyCode::Enter && old(app).form.field + 1 >= n && old(app).mode
                == Mode::Add ==> add_submitted(*old(app), *final(app))
            &&& key_event.code == KeyCode::Enter && old(app).form.field + 1 >= n && old(app).mode
                == Mode::Edit ==> edit_submitted(*old(app), *final(app))
            &&& key_event.code == KeyCode::Enter && old(app).form.field + 1 >= n && old(app).mode
                == Mode::Rename ==> rename_submitted(*old(app), *final(app))
            &&& key_event.code == KeyCode::Enter && old(app).form.field + 1 >= n && old(app).mode
                == Mode::ChangeMaster ==> master_submitted(*old(app), *final(app))
            &&& key_event.code == KeyCode::Enter && old(app).form.field + 1 >= n && old(app).mode
                == Mode::TransferSetup ==> transfer_setup_submitted(*old(app), *final(app))
            &&& key_event.code == KeyCode::Enter && old(app).form.field + 1 >= n && old(app).mode
                == Mode::TransferRename ==> transfer_rename_submitted(*old(app), *final(app))
        },
        !is_interrupt(key_event) && old(app).mode == Mode::Locked && key_event.code == KeyCode::Enter
            ==> (final(app).awaiting matches Some(Request::ReopenVault { master }) && master@ == old(
            app).form.password@) && final(app).pending == Some(Pending::Unlocked) && final(app).mode
            == Mode::Locked && final(app).vault == old(app).vault,
        !is_interrupt(key_event) && old(app).mode == Mode::Search && key_event.code == KeyCode::Enter
            ==> final(app).mode == Mode::List && final(app).filter == old(app).filter,
        !is_interrupt(key_event) && old(app).mode == Mode::Search && key_event.code is Char
            && !key_event.ctrl ==> final(app).filter@ == old(app).filter@.push(key_event.code->0),
        !is_interrupt(key_event) && old(app).mode == Mode::ConfirmDelete && (key_event.code
            == KeyCode::Char('n') || key_event.code == KeyCode::Char('N') || key_event.code
            == KeyCode::Esc || key_event.code == KeyCode::Char('q')) ==> final(app).mode
            == Mode::List && final(app).vault@ == old(app).vault@,
        !is_interrupt(key_event) && old(app).mode == Mode::TransferConflict && (key_event.code
            == KeyCode::Char('a') || key_event.code == KeyCode::Esc) ==> final(app).mode
            == Mode::List && final(app).transfer_kind is None,
        !is_interrupt(key_event) && old(app).mode == Mode::TransferConflict && key_event.code
            == KeyCode::Char('r') && old(app).conflict_incoming is Some ==> final(app).mode
            == Mode::TransferRename,
        !is_interrupt(key_event) && old(app).mode == Mode::TransferConflict && key_event.code
            == KeyCode::Char('s') ==> conflict_skipped(*old(app), *final(app)),
        !is_interrupt(key_event) && old(app).mode == Mode::TransferConflict && key_event.code
            == KeyCode::Char('o') ==> conflict_overwritten(*old(app), *final(app)),
        !is_interrupt(key_event) && old(app).mode == Mode::List && key_event.code == KeyCode::Char(
            'E',
        ) && (old(app).marked@.len() > 0 || old(app).spec_selected_index() is Some)
            ==> export_started(*final(app), false),
        !is_interrupt(key_event) && old(app).mode == Mode::List && key_event.code == KeyCode::Char(
            'M',
        ) && (old(app).marked@.len() > 0 || old(app).spec_selected_index() is Some)
            ==> export_started(*final(app), true),
        !is_interrupt(key_event) && old(app).mode == Mode::List && key_event.code == KeyCode::Char(
            ' ',
        ) ==> mark_toggled(*old(app), *final(app)) && final(app).mode == Mode::List,
        !is_interrupt(key_event) && is_form_mode(old(app).mode) && key_event.code is Char
            && !key_event.ctrl ==> {
            let f = spec_active_field(old(app).mode, old(app).form.field);
            &&& final(app).form.text_of(f) == old(app).form.text_of(f).push(key_event.code->0)
            &&& final(app).form.same_except(&old(app).form, f)
            &&& final(app).mode == old(app).mode
        },
{
    if key_event.ctrl && (key_event.code == KeyCode::Char('c') || key_event.code == KeyCode::Char(
        'C',
    )) {
        app.quit();
        return Ok(());
    }
    match app.mode {
        Mode::List => handle_list(key_event, app),
        Mode::Search => handle_search(key_event, app),
        Mode::Add | Mode::Edit | Mode::ChangeMaster | Mode::Rename | Mode::TransferSetup
        | Mode::TransferRename => handle_form(key_event, app),
        Mode::ConfirmDelete => handle_confirm(key_event, app),
        Mode::Help => handle_help(key_event, app),
        Mode::Locked => handle_unlock(key_event, app),
        Mode::TransferConflict => handle_conflict(key_event, app),
    }
}

fn handle_list(key_event: KeyEvent, app: &mut App) -> (r: Result<(), StashError>)
    requires
        old(app).mode == Mode::List,
    ensures
        r is Ok,
        key_event.code == KeyCode::Esc || key_event.code == KeyCode::Char('q') ==> !final(app).running,
        key_event.code == KeyCode::Char('a') ==> final(app).mode == Mode::Add && final(app).form.is_default(),
        key_event.code == KeyCode::Char('?') ==> final(app).mode == Mode::Help,
        key_event.code == KeyCode::Char('/') ==> final(app).mode == Mode::Search,
        key_event.code == KeyCode::Char('P') ==> final(app).mode == Mode::ChangeMaster,
        (key_event.code == KeyCode::Down || key_event.code == KeyCode::Char('j')) && old(app).spec_visible() > 0 ==> final(app).selected == (old(app).selected + 1) % (old(app).spec_visible() as int),
        (key_event.code == KeyCode::Up || key_event.code == KeyCode::Char('k')) && old(app).spec_visible() > 0 ==> final(app).selected == (old(app).selected + old(app).spec_visible() - 1) % (old(app).spec_visible() as int),
        key_event.code == KeyCode::Char('d') && old(app).spec_selected_index() is Some ==> final(app).mode == Mode::ConfirmDelete,
        key_event.code == KeyCode::Char('I') ==> final(app).mode == Mode::TransferSetup && final(app).transfer_kind == Some(TransferKind::Import),
        key_event.code == KeyCode::Char('g') ==> final(app).mode == Mode::Add && (
        crate::generate::is_generated_password(
            final(app).form.password@,
            crate::generate::DEFAULT_LENGTH as nat,
        ) || final(app).form.password@.len() == 0),
        final(app).vault@ == old(app).vault@,
        key_event.code == KeyCode::Char('c') ==> (old(app).spec_selected_index() matches Some(i)
            ==> (final(app).awaiting matches Some(Request::CopyToClipboard(t)) && t@ == old(
            app).vault@.entries[i].password)),
        key_event.code == KeyCode::Char('e') ==> (old(app).spec_selected_index() matches Some(i)
            ==> final(app).mode == Mode::Edit && final(app).form.service@ == old(
            app).vault@.entries[i].service),
        key_event.code == KeyCode::Enter || (key_event.code == KeyCode::Char('p') && !key_event.shift)
            ==> (old(app).spec_selected_index() is Some ==> final(app).revealed == !old(
            app).revealed) && (old(app).spec_selected_index() is None ==> final(app).revealed == old(
            app).revealed),
        key_event.code == KeyCode::Char('y') ==> (old(app).spec_selected_index() matches Some(i)
            ==> (final(app).awaiting matches Some(Request::CopyToClipboard(t)) && t@ == old(
            app).vault@.entries[i].username)),
        key_event.code == KeyCode::Char('r') ==> (old(app).spec_selected_index() matches Some(i)
            ==> final(app).mode == Mode::Rename && final(app).form.service@ == old(
            app).vault@.entries[i].service),
        key_event.code == KeyCode::Char('E') && (old(app).marked@.len() > 0 || old(
            app).spec_selected_index() is Some) ==> export_started(*final(app), false),
        key_event.code == KeyCode::Char('M') && (old(app).marked@.len() > 0 || old(
            app).spec_selected_index() is Some) ==> export_started(*final(app), true),
        key_event.code == KeyCode::Char(' ') ==> mark_toggled(*old(app), *final(app)) && final(
            app).mode == Mode::List,
{
    match key_event.code {
        KeyCode::Esc | KeyCode::Char('q') => app.quit(),
        KeyCode::Down | KeyCode::Char('j') => app.select_next(),
        KeyCode::Up | KeyCode::Char('k') => app.select_prev(),
        KeyCode::Char('/') => app.begin_search(),
        KeyCode::Char('P') => app.begin_change_master(),
        KeyCode::Char('p') if key_event.shift => app.begin_change_master(),
        KeyCode::Enter | KeyCode::Char('p') => app.toggle_reveal(),
        KeyCode::Char('c') => {
            let _ = app.copy_password();
        },
        KeyCode::Char('y') => {
            let _ = app.copy_username();
        },
        KeyCode::Char('g') => app.begin_add_generated(),
        KeyCode::Char('?') => app.begin_help(),
        KeyCode::Char('a') => app.begin_add(),
        KeyCode::Char('e') => app.begin_edit(),
        KeyCode::Char('r') => app.begin_rename(),
        KeyCode::Char('d') => app.begin_delete(),
        KeyCode::Char(' ') => app.toggle_mark(),
        KeyCode::Char('E') => app.begin_export(false),
        KeyCode::Char('M') => app.begin_export(true),
        KeyCode::Char('I') => app.begin_import(),
        _ => {},
    }
    Ok(())
}

fn handle_search(key_event: KeyEvent, app: &mut App) -> (r: Result<(), StashError>)
    requires
        old(app).mode == Mode::Search,
    ensures
        r is Ok,
        key_event.code == KeyCode::Esc ==> final(app).mode == Mode::List && final(app).filter@.len() == 0,
        key_event.code == KeyCode::Enter ==> final(app).mode == Mode::List && final(app).filter
            == old(app).filter,
        key_event.code is Char && !key_event.ctrl ==> final(app).filter@ == old(
            app).filter@.push(key_event.code->0),
{
    match key_event.code {
        KeyCode::Esc => app.cancel_mode(),
        KeyCode::Enter => app.confirm_search(),
        KeyCode::Backspace => app.backspace(),
        KeyCode::Char(c) => {
            if !key_event.ctrl {
                app.type_char(c);
            }
        },
        _ => {},
    }
    Ok(())
}

fn handle_form(key_event: KeyEvent, app: &mut App) -> (r: Result<(), StashError>)
    requires
        old(app).mode == Mode::Add || old(app).mode == Mode::Edit || old(app).mode
            == Mode::ChangeMaster || old(app).mode == Mode::Rename || old(app).mode
            == Mode::TransferSetup || old(app).mode == Mode::TransferRename,
    ensures
        r is Ok,
        key_event.code == KeyCode::Esc && (old(app).mode == Mode::Add || old(app).mode
            == Mode::Edit) ==> final(app).mode == Mode::List,
        key_event.code == KeyCode::Esc && old(app).mode == Mode::TransferRename ==> final(app).mode
            == Mode::TransferConflict,
        (old(app).mode == Mode::Add || old(app).mode == Mode::Edit) && key_event.ctrl && (
        key_event.code == KeyCode::Char('g') || key_event.code == KeyCode::Char('G')) ==> {
            &&& password_generated(*old(app), *final(app))
            &&& final(app).mode == old(app).mode
            &&& final(app).vault@ == old(app).vault@
        },
        !(key_event.ctrl && (key_event.code == KeyCode::Char('g') || key_event.code
            == KeyCode::Char('G'))) ==> {
            let n = spec_field_count(old(app).mode, old(app).transfer_kind) as int;
            &&& (key_event.code == KeyCode::Tab || key_event.code == KeyCode::Down) && old(
                app).form.field < usize::MAX ==> final(app).form.field == (old(app).form.field + 1)
                % n && final(app).mode == old(app).mode
            &&& (key_event.code == KeyCode::BackTab || key_event.code == KeyCode::Up) && old(
                app).form.field + n <= usize::MAX ==> final(app).form.field == (old(app).form.field
                + n - 1) % n && final(app).mode == old(app).mode
            &&& key_event.code == KeyCode::Enter && old(app).form.field + 1 < n ==> final(
                app).form.field == old(app).form.field + 1 && final(app).mode == old(app).mode
                && final(app).vault@ == old(app).vault@
            &&& key_event.code == KeyCode::Enter && old(app).form.field + 1 >= n && old(app).mode
                == Mode::Add ==> add_submitted(*old(app), *final(app))
            &&& key_event.code == KeyCode::Enter && old(app).form.field + 1 >= n && old(app).mode
                == Mode::Edit ==> edit_submitted(*old(app), *final(app))
            &&& key_event.code == KeyCode::Enter && old(app).form.field + 1 >= n && old(app).mode
                == Mode::Rename ==> rename_submitted(*old(app), *final(app))
            &&& key_event.code == KeyCode::Enter && old(app).form.field + 1 >= n && old(app).mode
                == Mode::ChangeMaster ==> master_submitted(*old(app), *final(app))
            &&& key_event.code == KeyCode::Enter && old(app).form.field + 1 >= n && old(app).mode
                == Mode::TransferSetup ==> transfer_setup_submitted(*old(app), *final(app))
            &&& key_event.code == KeyCode::Enter && old(app).form.field + 1 >= n && old(app).mode
                == Mode::TransferRename ==> transfer_rename_submitted(*old(app), *final(app))
        },
        key_event.code is Char && !key_event.ctrl ==> {
            let f = spec_active_field(old(app).mode, old(app).form.field);
            &&& final(app).form.text_of(f) == old(app).form.text_of(f).push(key_event.code->0)
            &&& final(app).form.same_except(&old(app).form, f)
            &&& final(app).mode == old(app).mode
        },
{
    if (app.mode == Mode::Add || app.mode == Mode::Edit) && key_event.ctrl && (key_event.code
        == KeyCode::Char('g') || key_event.code == KeyCode::Char('G')) {
        app.generate_form_password();
        return Ok(());
    }
    let n = app.form.field_count(app.mode, app.transfer_kind);
    match key_event.code {
        KeyCode::Esc => app.cancel_mode(),
        KeyCode::Tab | KeyCode::Down => {
            if app.form.field < usize::MAX {
                app.form.next_field(app.mode, app.transfer_kind);
            }
        },
        KeyCode::BackTab | KeyCode::Up => {
            if app.form.field <= usize::MAX - n {
                app.form.prev_field(app.mode, app.transfer_kind);
            }
        },
        KeyCode::Enter => {
            if app.form.field >= n - 1 {
                let _ = app.submit_form();
            } else {
                proof {
                    vstd::arithmetic::div_mod::lemma_small_mod(
                        (app.form.field + 1) as nat,
                        n as nat,
                    );
                }
                app.form.next_field(app.mode, app.transfer_kind);
            }
        },
        KeyCode::Backspace => app.backspace(),
        KeyCode::Char(c) => {
            if !key_event.ctrl {
                app.type_char(c);
            }
        },
        _ => {},
    }
    Ok(())
}

fn handle_unlock(key_event: KeyEvent, app: &mut App) -> (r: Result<(), StashError>)
    requires
        old(app).mode == Mode::Locked,
    ensures
        r is Ok,
        key_event.code == KeyCode::Esc || key_event.code == KeyCode::Char('q') ==> !final(app).running,
        key_event.code == KeyCode::Enter ==> (final(app).awaiting matches Some(
            Request::ReopenVault { master },
        ) && master@ == old(app).form.password@) && final(app).pending == Some(Pending::Unlocked)
            && final(app).mode == Mode::Locked && final(app).vault == old(app).vault,
{
    match key_event.code {
        KeyCode::Esc | KeyCode::Char('q') => app.quit(),
        KeyCode::Enter => {
            let _ = app.submit_form();
        },
        KeyCode::Backspace => app.backspace(),
        KeyCode::Char(c) => {
            if !key_event.ctrl {
                app.type_char(c);
            }
        },
        _ => {},
    }
    Ok(())
}

fn handle_help(key_event: KeyEvent, app: &mut App) -> (r: Result<(), StashError>)
    requires
        old(app).mode == Mode::Help,
    ensures
        r is Ok,
        key_event.code == KeyCode::Esc || key_event.code == KeyCode::Char('q') || key_event.code
            == KeyCode::Char('?') ==> final(app).mode == Mode::List,
        !(key_event.code == KeyCode::Esc || key_event.code == KeyCode::Char('q')
            || key_event.code == KeyCode::Char('?')) ==> *final(app) == *old(app),
{
    match key_event.code {
        KeyCode::Esc | KeyCode::Char('q') | KeyCode::Char('?') => app.cancel_mode(),
        _ => {},
    }
    Ok(())
}

fn handle_confirm(key_event: KeyEvent, app: &mut App) -> (r: Result<(), StashError>)
    requires
        old(app).mode == Mode::ConfirmDelete,
    ensures
        r is Ok,
        final(app).mode == Mode::List || final(app).mode == Mode::ConfirmDelete,
        key_event.code == KeyCode::Char('n') || key_event.code == KeyCode::Char('N')
            || key_event.code == KeyCode::Esc || key_event.code == KeyCode::Char('q') ==> final(app).mode == Mode::List && final(app).vault@ == old(app).vault@,
        key_event.code == KeyCode::Char('y') || key_event.code == KeyCode::Char('Y')
            || key_event.code == KeyCode::Enter ==> delete_confirmed(*old(app), *final(app)),
{
    match key_event.code {
        KeyCode::Char('y') | KeyCode::Char('Y') | KeyCode::Enter => {
            let _ = app.confirm_delete();
        },
        KeyCode::Char('n') | KeyCode::Char('N') | KeyCode::Esc | KeyCode::Char('q') => {
            app.cancel_mode();
        },
        _ => {},
    }
    Ok(())
}

fn handle_conflict(key_event: KeyEvent, app: &mut App) -> (r: Result<(), StashError>)
    requires
        old(app).mode == Mode::TransferConflict,
    ensures
        r is Ok,
        key_event.code == KeyCode::Char('a') || key_event.code == KeyCode::Esc ==> final(app).mode == Mode::List && final(app).transfer_kind is None,
        key_event.code == KeyCode::Char('r') && old(app).conflict_incoming is Some ==> final(app).mode == Mode::TransferRename,
        key_event.code == KeyCode::Char('s') ==> conflict_skipped(*old(app), *final(app)),
        key_event.code == KeyCode::Char('o') ==> conflict_overwritten(*old(app), *final(app)),
{
    match key_event.code {
        KeyCode::Char('s') => {
            let _ = app.resolve_conflict(ConflictDecision::Skip);
        },
        KeyCode::Char('o') => {
            let _ = app.resolve_conflict(ConflictDecision::Overwrite);
        },
        KeyCode::Char('r') => app.begin_conflict_rename(),
        KeyCode::Char('a') => {
            let _ = app.resolve_conflict(ConflictDecision::Abort);
        },
        KeyCode::Esc => app.cancel_mode(),
        _ => {},
    }
    Ok(())
}

} // verus!
