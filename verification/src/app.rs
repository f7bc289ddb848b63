//! The terminal UI's state machine: modes, the entry list with its filter
//! and selection, the edit forms, and the transfer of entries between
//! vaults. Work that reaches outside the process (saving a vault, reading
//! one, the clipboard) is handed out as a `Request`; its result comes back
//! through `App::complete`.
use vstd::prelude::*;

use crate::clipboard::CLIPBOARD_TTL_MS;
use crate::error::StashError;
use crate::generate;
use crate::text;
use crate::vault::{entry_matches, spec_get, EntryView, PasswordEntry, Vault, VaultView};

verus! {

#[derive(Debug, Clone, Copy, PartialEq, Eq, Structural)]
pub enum Mode {
    List,
    Search,
    Add,
    Edit,
    ConfirmDelete,
    ChangeMaster,
    Rename,
    Help,
    Locked,
    TransferSetup,
    TransferConflict,
    TransferRename,
}

#[derive(Debug, Clone, Copy, PartialEq, Eq, Structural)]
pub enum TransferKind {
    ExportCopy,
    ExportMove,
    Import,
}

/// The form fields a mode edits.
#[derive(Debug, Clone, Copy, PartialEq, Eq, Structural)]
pub enum FormField {
    Service,
    Username,
    Password,
    Confirm,
    Url,
    Notes,
}

/// The text of the edit forms and the field that has the focus.
#[derive(Debug)]
pub struct FormState {
    pub service: String,
    pub username: String,
    pub password: String,
    pub confirm: String,
    pub url: String,
    pub notes: String,
    pub field: usize,
}

/// How many fields the form has in `mode`.
pub open spec fn spec_field_count(mode: Mode, transfer_kind: Option<TransferKind>) -> nat {
    match mode {
        Mode::Add => 5,
        Mode::Edit => 4,
        Mode::Rename | Mode::TransferRename => 1,
        Mode::ChangeMaster => 2,
        Mode::TransferSetup => match transfer_kind {
            Some(TransferKind::Import) => 2,
            _ => 3,
        },
        Mode::Locked => 1,
        _ => 0,
    }
}

/// The field that typing edits in `mode` when field number `field` has the
/// focus.
pub open spec fn spec_active_field(mode: Mode, field: usize) -> FormField {
    match (mode, field) {
        (Mode::Add, 0) => FormField::Service,
        (Mode::Add, 1) | (Mode::Edit, 0) => FormField::Username,
        (Mode::Add, 2) | (Mode::Edit, 1) | (Mode::ChangeMaster, 0) | (Mode::Locked, _) => {
            FormField::Password
        },
        (Mode::Add, 3) | (Mode::Edit, 2) => FormField::Url,
        (Mode::Add, 4) | (Mode::Edit, 3) => FormField::Notes,
        (Mode::Rename, _) | (Mode::TransferRename, _) | (Mode::TransferSetup, 0) => {
            FormField::Service
        },
        (Mode::TransferSetup, 1) => FormField::Password,
        (Mode::TransferSetup, 2) => FormField::Confirm,
        (Mode::ChangeMaster, 1) => FormField::Confirm,
        _ => FormField::Service,
    }
}

/// The fields that the form of `mode` shows, top to bottom: field number
/// `i` is the `i`-th of them.
pub open spec fn form_layout(mode: Mode, transfer_kind: Option<TransferKind>) -> Seq<FormField> {
    match mode {
        Mode::Add => seq![
            FormField::Service,
            FormField::Username,
            FormField::Password,
            FormField::Url,
            FormField::Notes,
        ],
        Mode::Edit => seq![FormField::Username, FormField::Password, FormField::Url, FormField::Notes],
        Mode::Rename | Mode::TransferRename => seq![FormField::Service],
        Mode::ChangeMaster => seq![FormField::Password, FormField::Confirm],
        Mode::TransferSetup => match transfer_kind {
            Some(TransferKind::Import) => seq![FormField::Service, FormField::Password],
            _ => seq![FormField::Service, FormField::Password, FormField::Confirm],
        },
        Mode::Locked => seq![FormField::Password],
        _ => Seq::empty(),
    }
}

impl FormState {
    /// The text of a field.
    pub open spec fn text_of(&self, f: FormField) -> Seq<char> {
        match f {
            FormField::Service => self.service@,
            FormField::Username => self.username@,
            FormField::Password => self.password@,
            FormField::Confirm => self.confirm@,
            FormField::Url => self.url@,
            FormField::Notes => self.notes@,
        }
    }

    /// Whether two forms agree on every field but `f`.
    pub open spec fn same_except(&self, other: &FormState, f: FormField) -> bool {
        &&& self.field == other.field
        &&& forall|g: FormField| g != f ==> self.text_of(g) == other.text_of(g)
    }

    /// An empty form with the focus on its first field.
    pub open spec fn is_default(&self) -> bool {
        &&& self.service@.len() == 0
        &&& self.username@.len() == 0
        &&& self.password@.len() == 0
        &&& self.confirm@.len() == 0
        &&& self.url@.len() == 0
        &&& self.notes@.len() == 0
        &&& self.field == 0
    }

    /// An empty form.
    pub fn new() -> (f: FormState)
        ensures
            f.is_default(),
    {
        FormState {
            service: String::new(),
            username: String::new(),
            password: String::new(),
            confirm: String::new(),
            url: String::new(),
            notes: String::new(),
            field: 0,
        }
    }

    /// How many fields the form has in `mode`.
    pub fn field_count(&self, mode: Mode, transfer_kind: Option<TransferKind>) -> (n: usize)
        ensures
            n == spec_field_count(mode, transfer_kind),
            n == form_layout(mode, transfer_kind).len(),
    {
        match mode {
            Mode::Add => 5,
            Mode::Edit => 4,
            Mode::Rename | Mode::TransferRename => 1,
            Mode::ChangeMaster => 2,
            Mode::TransferSetup => match transfer_kind {
                Some(TransferKind::Import) => 2,
                _ => 3,
            },
            Mode::Locked => 1,
            _ => 0,
        }
    }

    /// The text that typing edits in `mode`.
    pub fn active_mut(&mut self, mode: Mode) -> (r: &mut String)
        ensures
            r@ == old(self).text_of(spec_active_field(mode, old(self).field)),
            final(self).text_of(spec_active_field(mode, old(self).field)) == final(r)@,
            final(self).same_except(old(self), spec_active_field(mode, old(self).field)),
    {
        match (mode, self.field) {
            (Mode::Add, 0) => &mut self.service,
            (Mode::Add, 1) | (Mode::Edit, 0) => &mut self.username,
            (Mode::Add, 2) | (Mode::Edit, 1) | (Mode::ChangeMaster, 0) | (Mode::Locked, _) => {
                &mut self.password
            },
            (Mode::Add, 3) | (Mode::Edit, 2) => &mut self.url,
            (Mode::Add, 4) | (Mode::Edit, 3) => &mut self.notes,
            (Mode::Rename, _) | (Mode::TransferRename, _) | (Mode::TransferSetup, 0) => {
                &mut self.service
            },
            (Mode::TransferSetup, 1) => &mut self.password,
            (Mode::TransferSetup, 2) => &mut self.confirm,
            (Mode::ChangeMaster, 1) => &mut self.confirm,
            _ => &mut self.service,
        }
    }

    /// Moves the focus to the next field, wrapping around.
    pub fn next_field(&mut self, mode: Mode, transfer_kind: Option<TransferKind>)
        requires
            spec_field_count(mode, transfer_kind) > 0 ==> old(self).field < usize::MAX,
        ensures
            spec_field_count(mode, transfer_kind) == 0 ==> final(self).field == old(self).field,
            spec_field_count(mode, transfer_kind) > 0 ==> final(self).field == (old(self).field + 1)
                % (spec_field_count(mode, transfer_kind) as int),
            forall|g: FormField| final(self).text_of(g) == old(self).text_of(g),
    {
        let n = self.field_count(mode, transfer_kind);
        if n > 0 {
            self.field = (self.field + 1) % n;
        }
    }

    /// Moves the focus to the previous field, wrapping around.
    pub fn prev_field(&mut self, mode: Mode, transfer_kind: Option<TransferKind>)
        requires
            old(self).field + spec_field_count(mode, transfer_kind) <= usize::MAX,
        ensures
            spec_field_count(mode, transfer_kind) == 0 ==> final(self).field == old(self).field,
            spec_field_count(mode, transfer_kind) > 0 ==> final(self).field == (old(self).field
                + spec_field_count(mode, transfer_kind) - 1) % (spec_field_count(
                mode,
                transfer_kind,
            ) as int),
            forall|g: FormField| final(self).text_of(g) == old(self).text_of(g),
    {
        let n = self.field_count(mode, transfer_kind);
        if n > 0 {
            self.field = (self.field + n - 1) % n;
        }
    }
}

/// How long a status message stays, in milliseconds.
pub const STATUS_TTL_MS: u64 = 4000;
/// How long the vault may sit idle before it locks itself, in milliseconds.
pub const IDLE_LOCK_MS: u64 = 120000;

/// What the user decided about an incoming entry whose service is taken.
pub enum ConflictDecision {
    Skip,
    Overwrite,
    Rename(String),
    Abort,
}

/// What a transfer did with each incoming entry.
pub struct TransferReport {
    pub copied: Vec<String>,
    pub overwritten: Vec<String>,
    pub renamed: Vec<(String, String)>,
    pub skipped: Vec<String>,
}

impl TransferReport {
    pub open spec fn is_empty(&self) -> bool {
        &&& self.copied@.len() == 0
        &&& self.overwritten@.len() == 0
        &&& self.renamed@.len() == 0
        &&& self.skipped@.len() == 0
    }

    /// A report of nothing.
    pub fn new() -> (r: TransferReport)
        ensures
            r.is_empty(),
    {
        TransferReport {
            copied: Vec::new(),
            overwritten: Vec::new(),
            renamed: Vec::new(),
            skipped: Vec::new(),
        }
    }
}

/// Which vault a save is for.
#[derive(Debug, Clone, Copy, PartialEq, Eq, Structural)]
pub enum SaveTarget {
    /// The vault the UI shows.
    Main,
    /// The vault that entries are exported to.
    TransferDest,
}

/// Work outside the process that the state machine asks for.
pub enum Request {
    /// Encrypt and write the vault.
    Save(SaveTarget),
    /// Put the text on the system clipboard.
    CopyToClipboard(String),
    /// Overwrite the system clipboard with nothing.
    ClearClipboard,
    /// Tell whether a file exists at the path.
    ProbePath(String),
    /// Read and open the vault file at the path with the master password.
    OpenVault { path: String, master: String },
    /// Read and open the main vault's file again with the master password.
    ReopenVault { master: String },
}

/// The result of a `Request`.
pub enum Outcome {
    Saved(Result<(), StashError>),
    Copied(Result<(), StashError>),
    Probed(bool),
    Opened(Result<Vault, StashError>),
}

/// What the state machine does once the awaited result is in.
pub enum Pending {
    Added(String),
    Updated(String),
    Renamed(String),
    MasterChanged,
    Deleted(String),
    Copied(String),
    ProbedDest(String),
    OpenedImportSource,
    OpenedExportDest,
    SavedNewExportDest,
    SavedIngest(bool),
    SavedOverwrite(String),
    SavedRename(String, String),
    Unlocked,
}

/// The indices of the entries that match a filter, in order.
pub open spec fn spec_filtered(entries: Seq<EntryView>, filter: Seq<char>) -> Seq<int> {
    Seq::new(entries.len(), |i: int| i).filter(|i: int| entry_matches(entries[i], filter))
}

/// The filtered positions lie inside the entries.
pub(crate) proof fn lemma_filtered_in_range(entries: Seq<EntryView>, filter: Seq<char>)
    ensures
        forall|m: int|
            0 <= m < spec_filtered(entries, filter).len() ==> 0 <= #[trigger] spec_filtered(
                entries,
                filter,
            )[m] < entries.len(),
{
    let idx = spec_filtered(entries, filter);
    let all = Seq::new(entries.len(), |i: int| i);
    let pred = |i: int| entry_matches(entries[i], filter);
    assert forall|m: int| 0 <= m < idx.len() implies 0 <= #[trigger] idx[m] < entries.len() by {
        assert(idx.contains(idx[m]));
        all.lemma_filter_contains_rev(pred, idx[m]);
    }
}

/// The terminal UI's state.
pub struct App {
    pub running: bool,
    pub vault: Vault,
    pub mode: Mode,
    pub selected: usize,
    pub filter: String,
    pub revealed: bool,
    pub form: FormState,
    /// The row the entry list highlights.
    pub list_selection: Option<usize>,
    /// The status message and the time until which it shows.
    pub status: Option<(String, u64)>,
    pub marked: Vec<String>,
    pub transfer_kind: Option<TransferKind>,
    pub conflict_existing: Option<PasswordEntry>,
    pub conflict_incoming: Option<PasswordEntry>,
    /// Requests whose results do not matter.
    pub outbox: Vec<Request>,
    /// The request whose result the state machine waits for.
    pub awaiting: Option<Request>,
    pub now: u64,
    pub clipboard_clear_at: Option<u64>,
    pub idle_deadline: u64,
    pub idle_timeout: u64,
    pub transfer_dest: Option<Vault>,
    pub transfer_queue: Vec<PasswordEntry>,
    pub transfer_report: TransferReport,
    pub pending: Option<Pending>,
}

/// Stepping forward from `a` among `n` rows, wrapping around.
proof fn lemma_wrap_next(a: int, n: int)
    requires
        0 <= a,
        0 < n,
    ensures
        (a + 1) % n == if a % n + 1 == n {
            0
        } else {
            a % n + 1
        },
{
    vstd::arithmetic::div_mod::lemma_mod_bound(a, n);
    vstd::arithmetic::div_mod::lemma_add_mod_noop_right(1, a, n);
    if a % n + 1 == n {
        vstd::arithmetic::div_mod::lemma_mod_add_multiples_vanish(0, n);
        vstd::arithmetic::div_mod::lemma_small_mod(0, n as nat);
    } else {
        vstd::arithmetic::div_mod::lemma_small_mod((a % n + 1) as nat, n as nat);
    }
}

/// Stepping back from `a` among `n` rows, wrapping around.
proof fn lemma_wrap_prev(a: int, n: int)
    requires
        0 <= a,
        0 < n,
    ensures
        (a + n - 1) % n == if a % n == 0 {
            n - 1
        } else {
            a % n - 1
        },
{
    vstd::arithmetic::div_mod::lemma_mod_bound(a, n);
    vstd::arithmetic::div_mod::lemma_add_mod_noop_right(n - 1, a, n);
    if a % n == 0 {
        vstd::arithmetic::div_mod::lemma_small_mod((n - 1) as nat, n as nat);
    } else {
        vstd::arithmetic::div_mod::lemma_mod_add_multiples_vanish(a % n - 1, n);
        vstd::arithmetic::div_mod::lemma_small_mod((a % n - 1) as nat, n as nat);
    }
}

/// The incoming entries whose service is free in the destination, in order.
pub open spec fn ingest_ready(dest: Seq<EntryView>, incoming: Seq<EntryView>) -> Seq<EntryView> {
    incoming.filter(|e: EntryView| !crate::vault::has_service(dest, e.service))
}

/// The incoming entries whose service is taken in the destination, in
/// order.
pub open spec fn ingest_conflicts(dest: Seq<EntryView>, incoming: Seq<EntryView>) -> Seq<
    EntryView,
> {
    incoming.filter(|e: EntryView| crate::vault::has_service(dest, e.service))
}

/// The entries left after deleting each of `names` in turn.
pub open spec fn entries_without_all(entries: Seq<EntryView>, names: Seq<Seq<char>>) -> Seq<
    EntryView,
>
    decreases names.len(),
{
    if names.len() == 0 {
        entries
    } else {
        crate::vault::entries_without(entries_without_all(entries, names.drop_last()), names.last())
    }
}

/// The services a move carries out of this vault: those copied, overwritten
/// and renamed (under their old names), in that order.
pub open spec fn moved_names(report: TransferReport) -> Seq<Seq<char>> {
    crate::vault::string_views(report.copied@) + crate::vault::string_views(report.overwritten@)
        + report.renamed@.map_values(|p: (String, String)| p.0@)
}

/// Whether the `k`-th entry that the filter shows is stored under exactly
/// `service`.
pub open spec fn shown_named(
    entries: Seq<EntryView>,
    filter: Seq<char>,
    service: Seq<char>,
    k: int,
) -> bool {
    let idx = spec_filtered(entries, filter);
    &&& 0 <= k < idx.len()
    &&& 0 <= idx[k] < entries.len()
    &&& entries[idx[k]].service == service
}

/// The summary a finished transfer shows: how many entries it copied,
/// overwrote, renamed and skipped.
pub open spec fn report_text(copied: nat, overwritten: nat, renamed: nat, skipped: nat) -> Seq<
    char,
> {
    "Copied "@ + text::spec_decimal(copied) + ", overwrote "@ + text::spec_decimal(overwritten)
        + ", renamed "@ + text::spec_decimal(renamed) + ", skipped "@ + text::spec_decimal(skipped)
}

/// What generating a form password leaves: a generated password and a
/// note saying so, or, when the random source fails, the password as it was
/// and the error's message.
pub open spec fn password_generated(before: App, after: App) -> bool {
    ||| crate::generate::is_generated_password(
        after.form.password@,
        crate::generate::DEFAULT_LENGTH as nat,
    ) && (after.status matches Some((m, _)) && m@ == "Generated a password"@)
    ||| after.form.password == before.form.password && (after.status matches Some((m, _)) && m@
        == StashError::EncryptionError(crate::error::EncryptionError::Random).spec_message())
}

/// What submitting the add form leaves: the new entry appended and a save
/// requested when the vault takes it, else the vault and the form as they
/// were, in the add mode.
pub open spec fn add_submitted(before: App, after: App) -> bool {
    if !before.vault@.locked && crate::vault::add_accepted(
        before.vault@.entries,
        before.form.service@,
        before.form.username@,
        before.form.password@,
    ) {
        &&& after.vault@ == (VaultView {
            entries: before.vault@.entries.push(
                crate::vault::new_entry(
                    before.form.service@,
                    before.form.username@,
                    before.form.password@,
                    before.form.url@,
                    before.form.notes@,
                ),
            ),
            ..before.vault@
        })
        &&& after.awaiting == Some(Request::Save(SaveTarget::Main))
        &&& after.pending matches Some(Pending::Added(s)) && s@ == before.form.service@
    } else {
        after.vault@ == before.vault@ && after.mode == Mode::Add && after.form == before.form
    }
}

/// What submitting the edit form leaves: the entry stored under the form's
/// service updated (the old password kept when the form's is blank) and a
/// save requested; the vault and the form as they were when the vault is
/// locked, the username is blank or no entry has that service.
pub open spec fn edit_submitted(before: App, after: App) -> bool {
    &&& after.mode == Mode::Edit
    &&& if !before.vault@.locked && text::spec_trim(before.form.username@).len() > 0
        && crate::vault::has_service(before.vault@.entries, before.form.service@) {
        let i = crate::vault::spec_position(before.vault@.entries, before.form.service@)->0;
        &&& after.vault@ == (VaultView {
            entries: crate::vault::updated_entries(
                before.vault@.entries,
                i,
                before.form.username@,
                if before.form.password@.len() == 0 {
                    before.vault@.entries[i].password
                } else {
                    before.form.password@
                },
                Some(before.form.url@),
                Some(before.form.notes@),
            ),
            ..before.vault@
        })
        &&& after.awaiting == Some(Request::Save(SaveTarget::Main))
        &&& after.pending matches Some(Pending::Updated(s)) && s@ == before.form.service@
    } else {
        after.vault@ == before.vault@ && after.form == before.form
    }
}

/// What submitting the rename form leaves: the selected entry stored under
/// the trimmed new name and a save requested, unless the vault is locked,
/// the name is blank or another entry has it; the list when no entry is
/// selected.
pub open spec fn rename_submitted(before: App, after: App) -> bool {
    match before.spec_selected_index() {
        Some(i) => {
            let from = before.vault@.entries[i].service;
            let to = text::spec_trim(before.form.service@);
            let k = crate::vault::spec_position(before.vault@.entries, from)->0;
            if !before.vault@.locked && to.len() > 0 && !crate::vault::taken_by_other(
                before.vault@.entries,
                k,
                to,
            ) {
                &&& after.vault@ == (VaultView {
                    entries: crate::vault::renamed_entries(before.vault@.entries, k, to),
                    ..before.vault@
                })
                &&& after.awaiting == Some(Request::Save(SaveTarget::Main))
            } else {
                after.vault@ == before.vault@ && after.mode == Mode::Rename
            }
        },
        None => after.vault@ == before.vault@ && after.mode == Mode::List,
    }
}

/// What submitting the master-password form leaves: nothing changed unless
/// the two passwords agree and are not blank; then either the vault keyed
/// by the new password under a fresh salt with a save requested, or the
/// form still open with the vault as it was.
pub open spec fn master_submitted(before: App, after: App) -> bool {
    if before.form.password@ != before.form.confirm@ {
        after.mode == Mode::ChangeMaster && after.vault == before.vault
    } else if !before.vault@.locked && before.form.password@.len() > 0 {
        ||| (after.vault@ == (VaultView {
            salt: after.vault@.salt,
            key: crate::encryption::spec_derive_key(before.form.password@, after.vault@.salt),
            ..before.vault@
        }) && after.awaiting == Some(Request::Save(SaveTarget::Main)) && after.pending == Some(
            Pending::MasterChanged,
        ))
        ||| (after.vault@ == before.vault@ && after.mode == Mode::ChangeMaster)
    } else {
        after.vault@ == before.vault@ && after.mode == Mode::ChangeMaster
    }
}

/// What submitting the transfer setup form leaves: this vault as it was; a
/// blank path changes nothing else; an import asks to open the vault at the
/// trimmed path with the form's password, an export asks whether a vault
/// exists there.
pub open spec fn transfer_setup_submitted(before: App, after: App) -> bool {
    let path = text::spec_trim(before.form.service@);
    &&& after.vault == before.vault
    &&& path.len() == 0 ==> after.awaiting == before.awaiting && after.mode == before.mode
    &&& path.len() > 0 ==> match before.transfer_kind {
        Some(TransferKind::Import) => (after.awaiting matches Some(
            Request::OpenVault { path: p, master },
        ) && p@ == path && master@ == before.form.password@) && after.pending == Some(
            Pending::OpenedImportSource,
        ),
        Some(_) => (after.awaiting matches Some(Request::ProbePath(p)) && p@ == path),
        None => after.awaiting == before.awaiting,
    }
}

/// What submitting a new name for a conflicting entry leaves: a save of the
/// destination when the trimmed name is free there and not blank, else the
/// rename form again with the destination as it was.
pub open spec fn transfer_rename_submitted(before: App, after: App) -> bool {
    &&& before.transfer_queue@.len() == 0 ==> after.mode == Mode::List && after.transfer_kind is None
    &&& before.transfer_queue@.len() > 0 ==> (before.spec_dest() matches Some(d) ==> {
        let name = text::spec_trim(before.form.service@);
        if !d.locked && name.len() > 0 && !crate::vault::has_service(d.entries, name) {
            after.awaiting == Some(Request::Save(before.dest_target_spec()))
        } else {
            after.mode == Mode::TransferRename && after.spec_dest() == before.spec_dest()
        }
    })
}

/// Whether the mode shows an edit form that Tab, the arrows and Enter move
/// through.
pub open spec fn is_form_mode(mode: Mode) -> bool {
    ||| mode == Mode::Add
    ||| mode == Mode::Edit
    ||| mode == Mode::ChangeMaster
    ||| mode == Mode::Rename
    ||| mode == Mode::TransferSetup
    ||| mode == Mode::TransferRename
}

/// Where the selection lands when it is clamped to `visible` rows: on the
/// last row when it lies beyond it, on the first when there are none.
pub open spec fn clamp_selection(sel: int, visible: int) -> int {
    if visible == 0 {
        0
    } else if sel < visible {
        sel
    } else {
        visible - 1
    }
}

/// What skipping the first queued conflict leaves: while more conflicts
/// wait, the destination as it was and the skipped service counted; when it
/// was the last one, the transfer ends with it counted among the skipped, and
/// a transfer that is no move leaves this vault as it was.
pub open spec fn conflict_skipped(before: App, after: App) -> bool {
    before.transfer_queue@.len() > 0 ==> if before.transfer_queue@.len() > 1
        && before.spec_dest() is Some {
        &&& after.spec_dest() == before.spec_dest()
        &&& crate::vault::string_views(after.transfer_report.skipped@)
            == crate::vault::string_views(before.transfer_report.skipped@).push(
            before.transfer_queue@[0]@.service,
        )
        &&& after.mode == Mode::TransferConflict
        &&& after.conflict_incoming == Some(before.transfer_queue@[1])
    } else {
        &&& before.transfer_kind != Some(TransferKind::ExportMove) ==> after.vault == before.vault
        &&& after.status matches Some((m, _)) && m@ == report_text(
            before.transfer_report.copied@.len(),
            before.transfer_report.overwritten@.len(),
            before.transfer_report.renamed@.len(),
            before.transfer_report.skipped@.len() + 1,
        )
        &&& after.mode == Mode::List
        &&& after.transfer_kind is None
    }
}

/// What overwriting with the first queued conflict leaves: the incoming
/// entry in place of the destination's entry stored under its service (or
/// appended when there is none), and a save of the destination requested.
pub open spec fn conflict_overwritten(before: App, after: App) -> bool {
    before.transfer_queue@.len() > 0 ==> (before.spec_dest() matches Some(d) ==> {
        let inc = before.transfer_queue@[0]@;
        &&& after.awaiting == Some(Request::Save(before.dest_target_spec()))
        &&& after.pending matches Some(Pending::SavedOverwrite(s)) && s@ == inc.service
        &&& after.spec_dest() == Some(
            VaultView {
                entries: match crate::vault::spec_position(d.entries, inc.service) {
                    Some(i) => d.entries.update(i, inc),
                    None => d.entries.push(inc),
                },
                ..d
            },
        )
    })
}

/// What starting an export leaves: the setup form for a move when
/// `move_entries`, else for a copy.
pub open spec fn export_started(after: App, move_entries: bool) -> bool {
    &&& after.mode == Mode::TransferSetup
    &&& after.form.is_default()
    &&& after.transfer_kind == Some(
        if move_entries {
            TransferKind::ExportMove
        } else {
            TransferKind::ExportCopy
        },
    )
}

/// What toggling the mark of the selected entry leaves: its service taken
/// out of the marks when it is marked, else appended to them; the marks as
/// they were when no entry is selected.
pub open spec fn mark_toggled(before: App, after: App) -> bool {
    match before.spec_selected_index() {
        Some(i) => {
            let svc = before.vault@.entries[i].service;
            match first_marked(before.marked@, svc) {
                Some(k) => after.marked@ == before.marked@.remove(k),
                None => after.marked@.len() == before.marked@.len() + 1
                    && after.marked@.drop_last() == before.marked@ && after.marked@.last()@ == svc,
            }
        },
        None => after.marked == before.marked,
    }
}

/// What a successful unlock leaves: the list, with the idle timer started
/// afresh from the time of the unlock.
pub open spec fn unlock_accepted(before: App, after: App) -> bool {
    &&& after.mode == Mode::List
    &&& after.now == before.now
    &&& after.idle_timeout == before.idle_timeout
    &&& after.idle_deadline == before.now.saturating_add(before.idle_timeout)
}

/// Whether the idle timer has run out at `now`: the vault is open and
/// `now` has reached the deadline.
pub open spec fn idle_expired(app: App, now: u64) -> bool {
    app.mode != Mode::Locked && now >= app.idle_deadline
}

/// What confirming a deletion leaves: the list, and the selected entry's
/// service deleted from the vault with a save requested, unless the vault is
/// locked; nothing is deleted when no entry is selected.
pub open spec fn delete_confirmed(before: App, after: App) -> bool {
    &&& after.mode == Mode::List
    &&& match before.spec_selected_index() {
        Some(i) => if before.vault@.locked {
            after.vault@ == before.vault@
        } else {
            &&& after.vault@ == (VaultView {
                entries: crate::vault::entries_without(
                    before.vault@.entries,
                    before.vault@.entries[i].service,
                ),
                ..before.vault@
            })
            &&& after.awaiting == Some(Request::Save(SaveTarget::Main))
            &&& after.pending matches Some(Pending::Deleted(s)) && s@
                == before.vault@.entries[i].service
        },
        None => after.vault == before.vault,
    }
}

/// The first mark that names `service`, ASCII case aside.
pub open spec fn first_marked(marked: Seq<String>, service: Seq<char>) -> Option<int> {
    if exists|k: int| 0 <= k < marked.len() && text::eq_ignore_ascii_case(#[trigger] marked[k]@, service) {
        Some(
            choose|k: int|
                0 <= k < marked.len() && text::eq_ignore_ascii_case(marked[k]@, service) && forall|
                    j: int,
                | 0 <= j < k ==> !text::eq_ignore_ascii_case(#[trigger] marked[j]@, service),
        )
    } else {
        None
    }
}

/// No two marks name the same service, ASCII case aside.
pub open spec fn marks_distinct(marked: Seq<String>) -> bool {
    forall|i: int, j: int|
        0 <= i < marked.len() && 0 <= j < marked.len() && i != j ==> !text::eq_ignore_ascii_case(
            #[trigger] marked[i]@,
            #[trigger] marked[j]@,
        )
}

proof fn lemma_remove_keeps_distinct(marked: Seq<String>, k: int)
    requires
        0 <= k < marked.len(),
        marks_distinct(marked),
    ensures
        marks_distinct(marked.remove(k)),
{
    let r = marked.remove(k);
    assert forall|i: int, j: int|
        0 <= i < r.len() && 0 <= j < r.len() && i != j implies !text::eq_ignore_ascii_case(
        #[trigger] r[i]@,
        #[trigger] r[j]@,
    ) by {
        let oi = if i < k {
            i
        } else {
            i + 1
        };
        let oj = if j < k {
            j
        } else {
            j + 1
        };
        assert(r[i] == marked[oi]);
        assert(r[j] == marked[oj]);
    }
}

proof fn lemma_first_marked_at(marked: Seq<String>, service: Seq<char>, k: int)
    requires
        0 <= k < marked.len(),
        text::eq_ignore_ascii_case(marked[k]@, service),
        forall|j: int| 0 <= j < k ==> !text::eq_ignore_ascii_case(#[trigger] marked[j]@, service),
    ensures
        first_marked(marked, service) == Some(k),
{
    let c = choose|c: int|
        0 <= c < marked.len() && text::eq_ignore_ascii_case(marked[c]@, service) && forall|j: int|
            0 <= j < c ==> !text::eq_ignore_ascii_case(#[trigger] marked[j]@, service);
    if c < k {
        assert(!text::eq_ignore_ascii_case(marked[c]@, service));
    } else if k < c {
        assert(!text::eq_ignore_ascii_case(marked[k]@, service));
    }
}

proof fn lemma_first_marked_none(marked: Seq<String>, service: Seq<char>)
    requires
        forall|j: int|
            0 <= j < marked.len() ==> !text::eq_ignore_ascii_case(#[trigger] marked[j]@, service),
    ensures
        first_marked(marked, service) is None,
{
}

/// A string made of `a` and `b`.
fn join2(a: &str, b: &str) -> (r: String)
    ensures
        r@ == a@ + b@,
{
    let mut s = text::to_owned(a);
    s.append(b);
    s
}

/// The indices of the entries that match `filter`.
fn matching_indices(entries: &[PasswordEntry], filter: &str) -> (r: Vec<usize>)
    ensures
        r@.len() == spec_filtered(crate::vault::entry_views(entries@), filter@).len(),
        forall|k: int|
            0 <= k < r@.len() ==> #[trigger] r@[k] as int == spec_filtered(
                crate::vault::entry_views(entries@),
                filter@,
            )[k],
{
    let ghost views = crate::vault::entry_views(entries@);
    let ghost idx = Seq::new(views.len(), |i: int| i);
    let ghost pred = |i: int| entry_matches(views[i], filter@);
    let mut out: Vec<usize> = Vec::new();
    let mut i: usize = 0;
    while i < entries.len()
        invariant
            i <= entries@.len(),
            views == crate::vault::entry_views(entries@),
            idx == Seq::new(views.len(), |i: int| i),
            pred == (|i: int| entry_matches(views[i], filter@)),
            out@.len() == idx.take(i as int).filter(pred).len(),
            forall|k: int|
                0 <= k < out@.len() ==> #[trigger] out@[k] as int == idx.take(i as int).filter(
                    pred,
                )[k],
        decreases entries@.len() - i,
    {
        proof {
            assert(idx.take(i + 1) =~= idx.take(i as int).push(i as int));
            idx.take(i as int).lemma_filter_push(i as int, pred);
        }
        if entries[i].matches(filter) {
            out.push(i);
        }
        i = i + 1;
    }
    proof {
        assert(idx.take(i as int) =~= idx);
    }
    out
}

impl App {
    /// The state right after a vault was opened: the list mode, nothing
    /// selected beyond the first entry, nothing filtered.
    pub fn new(vault: Vault) -> (app: App)
        ensures
            app.running,
            app.mode == Mode::List,
            app.vault@ == vault@,
            app.selected == 0,
            app.filter@.len() == 0,
            !app.revealed,
            app.form.is_default(),
            app.marked@.len() == 0,
            app.transfer_kind is None,
            app.outbox@.len() == 0,
            app.awaiting is None,
            app.pending is None,
            app.status is None,
            app.now == 0,
            app.idle_timeout == IDLE_LOCK_MS,
            app.idle_deadline == IDLE_LOCK_MS,
            app.clipboard_clear_at is None,
            app.transfer_dest is None,
            app.transfer_queue@.len() == 0,
            app.transfer_report.is_empty(),
            app.spec_visible() == 0 ==> app.list_selection is None,
            app.spec_visible() > 0 ==> app.list_selection == Some(0usize),
    {
        let mut app = App {
            running: true,
            vault,
            mode: Mode::List,
            selected: 0,
            filter: String::new(),
            revealed: false,
            form: FormState::new(),
            list_selection: None,
            status: None,
            marked: Vec::new(),
            transfer_kind: None,
            conflict_existing: None,
            conflict_incoming: None,
            outbox: Vec::new(),
            awaiting: None,
            now: 0,
            clipboard_clear_at: None,
            idle_deadline: IDLE_LOCK_MS,
            idle_timeout: IDLE_LOCK_MS,
            transfer_dest: None,
            transfer_queue: Vec::new(),
            transfer_report: TransferReport::new(),
            pending: None,
        };
        app.sync_list_state();
        app
    }

    /// The time of the latest event, in milliseconds.
    pub fn now(&self) -> (r: u64)
        ensures
            r == self.now,
    {
        self.now
    }

    /// The vault entries are exported to, while a transfer is under way.
    pub fn transfer_dest(&self) -> (r: Option<&Vault>)
        ensures
            match self.transfer_dest {
                Some(d) => r matches Some(v) && v@ == d@,
                None => r is None,
            },
    {
        self.transfer_dest.as_ref()
    }

    /// Takes the requests whose results do not matter.
    pub fn take_outbox(&mut self) -> (r: Vec<Request>)
        ensures
            r@ == old(self).outbox@,
            final(self).outbox@.len() == 0,
    {
        let mut out = Vec::new();
        std::mem::swap(&mut out, &mut self.outbox);
        out
    }

    /// Takes the request whose result the state machine waits for.
    pub fn take_awaiting(&mut self) -> (r: Option<Request>)
        ensures
            r == old(self).awaiting,
            final(self).awaiting is None,
    {
        self.awaiting.take()
    }

    /// Whether a result is awaited.
    pub fn is_waiting(&self) -> (r: bool)
        ensures
            r == self.pending is Some,
    {
        self.pending.is_some()
    }

    /// Time passes: the vault locks itself after the idle timeout, the
    /// clipboard is cleared when its secret has stayed long enough, and a
    /// status message goes away when its time is up.
    pub fn tick(&mut self, now: u64)
        ensures
            final(self).now == now,
            idle_expired(*old(self), now) ==> final(self).mode == Mode::Locked,
            !idle_expired(*old(self), now) ==> final(self).mode == old(self).mode,
            old(self).mode != Mode::Locked && now >= old(self).idle_deadline ==> {
                &&& final(self).mode == Mode::Locked
                &&& final(self).vault@.locked
                &&& final(self).vault@.entries.len() == 0
                &&& !final(self).revealed
                &&& final(self).filter@.len() == 0
                &&& final(self).form.is_default()
                &&& final(self).status is None
                &&& final(self).marked@.len() == 0
                &&& final(self).transfer_kind is None
                &&& final(self).running == old(self).running
                &&& final(self).outbox@ == old(self).outbox@.push(Request::ClearClipboard)
            },
            !(old(self).mode != Mode::Locked && now >= old(self).idle_deadline) ==> {
                &&& final(self).mode == old(self).mode
                &&& final(self).vault == old(self).vault
                &&& final(self).form == old(self).form
                &&& (old(self).clipboard_clear_at matches Some(d) && now >= d) ==> {
                    &&& final(self).clipboard_clear_at is None
                    &&& final(self).outbox@ == old(self).outbox@.push(Request::ClearClipboard)
                    &&& now < u64::MAX ==> (final(self).status matches Some((m, _)) && m@
                        == "Clipboard cleared"@)
                }
                &&& !(old(self).clipboard_clear_at matches Some(d) && now >= d) ==> {
                    &&& final(self).clipboard_clear_at == old(self).clipboard_clear_at
                    &&& final(self).outbox == old(self).outbox
                    &&& (old(self).status matches Some((_, until)) && now >= until)
                        ==> final(self).status is None
                    &&& !(old(self).status matches Some((_, until)) && now >= until)
                        ==> final(self).status == old(self).status
                }
            },
    {
        proof {
            reveal_strlit("Clipboard cleared");
        }
        self.now = now;
        if self.mode != Mode::Locked && now >= self.idle_deadline {
            self.lock();
            return;
        }
        if let Some(deadline) = self.clipboard_clear_at {
            if now >= deadline {
                self.outbox.push(Request::ClearClipboard);
                self.clipboard_clear_at = None;
                self.flash(text::to_owned("Clipboard cleared"));
            }
        }
        let expired = match &self.status {
            Some((_, until)) => now >= *until,
            None => false,
        };
        if expired {
            self.status = None;
        }
    }

    /// A key or paste came in: the idle timer starts again, unless the
    /// vault is locked.
    pub fn note_activity(&mut self, now: u64)
        ensures
            final(self).now == now,
            old(self).mode != Mode::Locked ==> final(self).idle_deadline == now.saturating_add(
                old(self).idle_timeout,
            ),
            old(self).mode == Mode::Locked ==> final(self).idle_deadline == old(self).idle_deadline,
    {
        self.now = now;
        if self.mode != Mode::Locked {
            self.idle_deadline = now.saturating_add(self.idle_timeout);
        }
    }

    /// Makes the next `tick` find the vault idle for too long.
    pub fn expire_idle_for_test(&mut self)
        ensures
            *final(self) == (App { idle_deadline: 0, ..*old(self) }),
    {
        self.idle_deadline = 0;
    }

    /// Wipes everything secret and shows the lock screen: the clipboard is
    /// cleared, the filter, form, marks and any transfer are dropped, and
    /// the vault forgets its entries and key.
    pub fn lock(&mut self)
        ensures
            final(self).mode == Mode::Locked,
            final(self).vault@.locked,
            final(self).vault@.entries.len() == 0,
            !final(self).revealed,
            final(self).filter@.len() == 0,
            final(self).form.is_default(),
            final(self).status is None,
            final(self).marked@.len() == 0,
            final(self).transfer_kind is None,
            final(self).running == old(self).running,
            final(self).now == old(self).now,
            final(self).awaiting == old(self).awaiting,
            final(self).pending == old(self).pending,
            final(self).outbox@ == old(self).outbox@.push(Request::ClearClipboard),
    {
        self.outbox.push(Request::ClearClipboard);
        self.clipboard_clear_at = None;
        self.revealed = false;
        self.filter = String::new();
        self.form = FormState::new();
        self.status = None;
        self.marked = Vec::new();
        self.clear_transfer();
        self.vault.lock();
        self.sync_list_state();
        self.mode = Mode::Locked;
    }

    /// Ends the event loop.
    pub fn quit(&mut self)
        ensures
            *final(self) == (App { running: false, ..*old(self) }),
    {
        self.running = false;
    }

    /// Shows a status message for a while.
    pub fn flash(&mut self, message: String)
        ensures
            final(self).status matches Some((m, until)) && m@ == message@ && until
                == old(self).now.saturating_add(STATUS_TTL_MS),
            *final(self) == (App { status: final(self).status, ..*old(self) }),
    {
        self.status = Some((message, self.now.saturating_add(STATUS_TTL_MS)));
    }

    /// The positions of the entries that match the filter.
    pub fn filtered_indices(&self) -> (r: Vec<usize>)
        ensures
            r@.len() == spec_filtered(self.vault@.entries, self.filter@).len(),
            forall|k: int|
                0 <= k < r@.len() ==> #[trigger] r@[k] as int == spec_filtered(
                    self.vault@.entries,
                    self.filter@,
                )[k],
    {
        matching_indices(self.vault.entries(), self.filter.as_str())
    }

    /// The entry the selection points at among the filtered entries.
    pub open spec fn spec_selected_index(&self) -> Option<int> {
        let idx = spec_filtered(self.vault@.entries, self.filter@);
        if self.selected < idx.len() {
            Some(idx[self.selected as int])
        } else {
            None
        }
    }

    /// The selection points inside the vault's entries.
    pub proof fn lemma_selected_in_range(&self)
        ensures
            self.spec_selected_index() matches Some(i) ==> 0 <= i < self.vault@.entries.len(),
    {
        let idx = spec_filtered(self.vault@.entries, self.filter@);
        if self.selected < idx.len() {
            let all = Seq::new(self.vault@.entries.len(), |i: int| i);
            let pred = |i: int| entry_matches(self.vault@.entries[i], self.filter@);
            assert(idx.contains(idx[self.selected as int]));
            all.lemma_filter_contains_rev(pred, idx[self.selected as int]);
        }
    }

    /// The number of entries that the filter lets through.
    pub open spec fn spec_visible(&self) -> nat {
        spec_filtered(self.vault@.entries, self.filter@).len()
    }

    /// Clamps the selection to the filtered entries and mirrors it in the
    /// list's highlight.
    pub fn sync_list_state(&mut self)
        ensures
            *final(self) == (App {
                selected: final(self).selected,
                list_selection: final(self).list_selection,
                ..*old(self)
            }),
            old(self).spec_visible() == 0 ==> final(self).selected == 0
                && final(self).list_selection is None,
            old(self).spec_visible() > 0 ==> final(self).selected == (if old(self).selected
                < old(self).spec_visible() {
                old(self).selected as int
            } else {
                old(self).spec_visible() - 1
            }) && final(self).list_selection == Some(final(self).selected),
    {
        let n = self.filtered_indices().len();
        if n == 0 {
            self.selected = 0;
            self.list_selection = None;
            return;
        }
        if self.selected >= n {
            self.selected = n - 1;
        }
        self.list_selection = Some(self.selected);
    }

    /// The selected entry, if the selection points at one.
    pub fn selected_entry(&self) -> (r: Option<&PasswordEntry>)
        ensures
            match self.spec_selected_index() {
                Some(i) => r matches Some(e) && e@ == self.vault@.entries[i],
                None => r is None,
            },
    {
        let indices = self.filtered_indices();
        if self.selected < indices.len() {
            let i = indices[self.selected];
            proof {
                let idx = spec_filtered(self.vault@.entries, self.filter@);
                let all = Seq::new(self.vault@.entries.len(), |i: int| i);
                let pred = |i: int| entry_matches(self.vault@.entries[i], self.filter@);
                all.lemma_filter_pred(pred, self.selected as int);
                assert(idx.contains(idx[self.selected as int]));
                all.lemma_filter_contains_rev(pred, idx[self.selected as int]);
            }
            Some(&self.vault.entries()[i])
        } else {
            None
        }
    }

    /// The service of the selected entry.
    pub fn selected_service(&self) -> (r: Option<String>)
        ensures
            match self.spec_selected_index() {
                Some(i) => r matches Some(s) && s@ == self.vault@.entries[i].service,
                None => r is None,
            },
    {
        match self.selected_entry() {
            Some(e) => Some(e.service.clone()),
            None => None,
        }
    }

    /// Moves the selection down, wrapping to the top; the password is
    /// hidden again.
    pub fn select_next(&mut self)
        ensures
            old(self).spec_visible() > 0 ==> final(self).selected == (old(self).selected + 1)
                % (old(self).spec_visible() as int) && !final(self).revealed,
            old(self).spec_visible() == 0 ==> final(self).selected == old(self).selected
                && final(self).revealed == old(self).revealed,
            final(self).vault@ == old(self).vault@,
            final(self).mode == old(self).mode,
            final(self).filter == old(self).filter,
    {
        let n = self.filtered_indices().len();
        if n == 0 {
            return;
        }
        proof {
            lemma_wrap_next(self.selected as int, n as int);
        }
        let r = self.selected % n;
        self.selected = if r + 1 == n {
            0
        } else {
            r + 1
        };
        self.revealed = false;
        self.sync_list_state();
    }

    /// Moves the selection up, wrapping to the bottom; the password is
    /// hidden again.
    pub fn select_prev(&mut self)
        ensures
            old(self).spec_visible() > 0 ==> final(self).selected == (old(self).selected
                + old(self).spec_visible() - 1) % (old(self).spec_visible() as int)
                && !final(self).revealed,
            old(self).spec_visible() == 0 ==> final(self).selected == old(self).selected
                && final(self).revealed == old(self).revealed,
            final(self).vault@ == old(self).vault@,
            final(self).mode == old(self).mode,
            final(self).filter == old(self).filter,
    {
        let n = self.filtered_indices().len();
        if n == 0 {
            return;
        }
        proof {
            lemma_wrap_prev(self.selected as int, n as int);
        }
        let r = self.selected % n;
        self.selected = if r == 0 {
            n - 1
        } else {
            r - 1
        };
        self.revealed = false;
        self.sync_list_state();
    }

    /// Shows or hides the selected entry's password.
    pub fn toggle_reveal(&mut self)
        ensures
            old(self).spec_selected_index() is Some ==> final(self).revealed == !old(self).revealed,
            old(self).spec_selected_index() is None ==> final(self).revealed == old(self).revealed,
            *final(self) == (App { revealed: final(self).revealed, ..*old(self) }),
    {
        if self.selected_entry().is_some() {
            self.revealed = !self.revealed;
        }
    }

    /// Asks for the selected entry's password to be copied.
    pub fn copy_password(&mut self) -> (r: Result<(), StashError>)
        ensures
            r is Ok,
            old(self).spec_selected_index() matches Some(i) ==> final(self).awaiting matches Some(
                Request::CopyToClipboard(t),
            ) && t@ == old(self).vault@.entries[i].password,
            old(self).spec_selected_index() is None ==> *final(self) == (App {
                status: final(self).status,
                ..*old(self)
            }),
            final(self).vault == old(self).vault,
            final(self).mode == old(self).mode,
    {
        match self.selected_entry() {
            Some(entry) => {
                let secret = entry.password.clone();
                self.copy_selected(text::to_owned("Password"), secret);
            },
            None => self.flash(text::to_owned("No entry selected")),
        }
        Ok(())
    }

    /// Asks for the selected entry's username to be copied.
    pub fn copy_username(&mut self) -> (r: Result<(), StashError>)
        ensures
            r is Ok,
            old(self).spec_selected_index() matches Some(i) ==> final(self).awaiting matches Some(
                Request::CopyToClipboard(t),
            ) && t@ == old(self).vault@.entries[i].username,
            old(self).spec_selected_index() is None ==> *final(self) == (App {
                status: final(self).status,
                ..*old(self)
            }),
            final(self).vault == old(self).vault,
            final(self).mode == old(self).mode,
    {
        match self.selected_entry() {
            Some(entry) => {
                let secret = entry.username.clone();
                self.copy_selected(text::to_owned("Username"), secret);
            },
            None => self.flash(text::to_owned("No entry selected")),
        }
        Ok(())
    }

    fn copy_selected(&mut self, label: String, secret: String)
        ensures
            final(self).awaiting matches Some(Request::CopyToClipboard(t)) && t@ == secret@,
            final(self).pending matches Some(Pending::Copied(l)) && l@ == label@,
            *final(self) == (App {
                awaiting: final(self).awaiting,
                pending: final(self).pending,
                ..*old(self)
            }),
    {
        self.awaiting = Some(Request::CopyToClipboard(secret));
        self.pending = Some(Pending::Copied(label));
    }

    /// Fills the form's password with a generated one.
    pub fn generate_form_password(&mut self)
        ensures
            password_generated(*old(self), *final(self)),
            final(self).mode == old(self).mode,
            final(self).vault@ == old(self).vault@,
            final(self).form.service == old(self).form.service,
            final(self).form.username == old(self).form.username,
            final(self).form.field == old(self).form.field,
    {
        match generate::generate(generate::DEFAULT_LENGTH) {
            Ok(password) => {
                self.form.password = password;
                self.flash(text::to_owned("Generated a password"));
            },
            Err(err) => {
                let message = err.message();
                self.flash(message);
            },
        }
    }

    /// Opens the add form with a generated password.
    pub fn begin_add_generated(&mut self)
        ensures
            final(self).mode == Mode::Add,
            crate::generate::is_generated_password(
                final(self).form.password@,
                crate::generate::DEFAULT_LENGTH as nat,
            ) || final(self).form.password@.len() == 0,
            final(self).form.service@.len() == 0,
            final(self).form.field == 0,
            final(self).vault@ == old(self).vault@,
    {
        self.begin_add();
        self.generate_form_password();
    }

    pub fn begin_help(&mut self)
        ensures
            *final(self) == (App { mode: Mode::Help, ..*old(self) }),
    {
        self.mode = Mode::Help;
    }

    pub fn begin_search(&mut self)
        ensures
            *final(self) == (App { mode: Mode::Search, ..*old(self) }),
    {
        self.mode = Mode::Search;
    }

    /// Opens an empty add form.
    pub fn begin_add(&mut self)
        ensures
            final(self).form.is_default(),
            *final(self) == (App { mode: Mode::Add, form: final(self).form, ..*old(self) }),
    {
        self.form = FormState::new();
        self.mode = Mode::Add;
    }

    /// Opens the edit form filled with the selected entry, its password
    /// left blank.
    pub fn begin_edit(&mut self)
        ensures
            old(self).spec_selected_index() matches Some(i) ==> {
                let e = old(self).vault@.entries[i];
                &&& final(self).mode == Mode::Edit
                &&& final(self).form.service@ == e.service
                &&& final(self).form.username@ == e.username
                &&& final(self).form.password@.len() == 0
                &&& final(self).form.confirm@.len() == 0
                &&& final(self).form.url@ == e.url
                &&& final(self).form.notes@ == e.notes
                &&& final(self).form.field == 0
            },
            old(self).spec_selected_index() is None ==> final(self).mode == old(self).mode
                && final(self).form == old(self).form,
            final(self).vault@ == old(self).vault@,
    {
        let form = match self.selected_entry() {
            Some(entry) => FormState {
                service: entry.service.clone(),
                username: entry.username.clone(),
                password: String::new(),
                confirm: String::new(),
                url: entry.url.clone(),
                notes: entry.notes.clone(),
                field: 0,
            },
            None => {
                self.flash(text::to_owned("No entry selected"));
                return;
            },
        };
        self.form = form;
        self.mode = Mode::Edit;
    }

    /// Opens the change-master-password form.
    pub fn begin_change_master(&mut self)
        ensures
            final(self).form.is_default(),
            *final(self) == (App { mode: Mode::ChangeMaster, form: final(self).form, ..*old(self) }),
    {
        self.form = FormState::new();
        self.mode = Mode::ChangeMaster;
    }

    /// Opens the rename form with the selected entry's service.
    pub fn begin_rename(&mut self)
        ensures
            old(self).spec_selected_index() matches Some(i) ==> final(self).mode == Mode::Rename
                && final(self).form.service@ == old(self).vault@.entries[i].service
                && final(self).form.username@.len() == 0 && final(self).form.password@.len() == 0
                && final(self).form.field == 0,
            old(self).spec_selected_index() is None ==> final(self).mode == old(self).mode
                && final(self).form == old(self).form,
            final(self).vault@ == old(self).vault@,
    {
        let service = match self.selected_service() {
            Some(s) => s,
            None => {
                self.flash(text::to_owned("No entry selected"));
                return;
            },
        };
        let mut form = FormState::new();
        form.service = service;
        self.form = form;
        self.mode = Mode::Rename;
    }

    /// Whether the service is marked for export, compared without regard to
    /// ASCII case.
    pub fn is_marked(&self, service: &str) -> (r: bool)
        ensures
            r == exists|k: int|
                0 <= k < self.marked@.len() && text::eq_ignore_ascii_case(
                    #[trigger] self.marked@[k]@,
                    service@,
                ),
    {
        let mut k: usize = 0;
        while k < self.marked.len()
            invariant
                k <= self.marked@.len(),
                forall|j: int|
                    0 <= j < k ==> !text::eq_ignore_ascii_case(
                        #[trigger] self.marked@[j]@,
                        service@,
                    ),
            decreases self.marked@.len() - k,
        {
            if text::str_eq_ignore_ascii_case(self.marked[k].as_str(), service) {
                return true;
            }
            k = k + 1;
        }
        false
    }

    /// Marks the selected entry for export, or unmarks it.
    #[verifier::loop_isolation(false)]
    pub fn toggle_mark(&mut self)
        ensures
            old(self).spec_selected_index() matches Some(i) ==> {
                let svc = old(self).vault@.entries[i].service;
                match first_marked(old(self).marked@, svc) {
                    Some(k) => final(self).marked@ == old(self).marked@.remove(k),
                    None => final(self).marked@.len() == old(self).marked@.len() + 1
                        && final(self).marked@.drop_last() == old(self).marked@
                        && final(self).marked@.last()@ == svc,
                }
            },
            old(self).spec_selected_index() is None ==> final(self).marked == old(self).marked,
            mark_toggled(*old(self), *final(self)),
            marks_distinct(old(self).marked@) ==> marks_distinct(final(self).marked@),
            final(self).vault == old(self).vault,
            final(self).mode == old(self).mode,
    {
        let service = match self.selected_service() {
            Some(s) => s,
            None => {
                self.flash(text::to_owned("No entry selected"));
                return;
            },
        };
        let mut k: usize = 0;
        while k < self.marked.len()
            invariant
                k <= self.marked@.len(),
                self.marked == old(self).marked,
                self.vault == old(self).vault,
                self.mode == old(self).mode,
                forall|j: int|
                    0 <= j < k ==> !text::eq_ignore_ascii_case(
                        #[trigger] self.marked@[j]@,
                        service@,
                    ),
            decreases self.marked@.len() - k,
        {
            if text::str_eq_ignore_ascii_case(self.marked[k].as_str(), service.as_str()) {
                proof {
                    lemma_first_marked_at(self.marked@, service@, k as int);
                    if marks_distinct(self.marked@) {
                        lemma_remove_keeps_distinct(self.marked@, k as int);
                    }
                }
                self.marked.remove(k);
                return;
            }
            k = k + 1;
        }
        proof {
            lemma_first_marked_none(self.marked@, service@);
        }
        let ghost before = self.marked@;
        self.marked.push(service);
        proof {
            assert(self.marked@.drop_last() =~= before);
            if marks_distinct(before) {
                let m = self.marked@;
                assert forall|i: int, j: int|
                    0 <= i < m.len() && 0 <= j < m.len() && i != j implies !text::eq_ignore_ascii_case(
                    #[trigger] m[i]@,
                    #[trigger] m[j]@,
                ) by {
                    if i == m.len() - 1 {
                        assert(!text::eq_ignore_ascii_case(before[j]@, service@));
                        text::lemma_eq_ignore_ascii_case_equivalence(service@, before[j]@, service@);
                    } else if j == m.len() - 1 {
                        assert(!text::eq_ignore_ascii_case(before[i]@, service@));
                    } else {
                        assert(m[i] == before[i]);
                        assert(m[j] == before[j]);
                    }
                }
            }
        }
    }

    /// The services an export takes: the marked ones, or else the selected
    /// one.
    pub open spec fn spec_transfer_names(&self) -> Seq<Seq<char>> {
        if self.marked@.len() > 0 {
            crate::vault::string_views(self.marked@)
        } else {
            match self.spec_selected_index() {
                Some(i) => seq![self.vault@.entries[i].service],
                None => Seq::empty(),
            }
        }
    }

    /// The services an export takes: the marked ones, or else the selected
    /// one.
    fn services_to_transfer(&self) -> (r: Vec<String>)
        ensures
            self.marked@.len() > 0 ==> r@ == self.marked@,
            self.marked@.len() == 0 ==> match self.spec_selected_index() {
                Some(i) => r@.len() == 1 && r@[0]@ == self.vault@.entries[i].service,
                None => r@.len() == 0,
            },
            crate::vault::string_views(r@) == self.spec_transfer_names(),
    {
        if self.marked.len() == 0 {
            match self.selected_service() {
                Some(s) => {
                    let mut v = Vec::new();
                    v.push(s);
                    v
                },
                None => Vec::new(),
            }
        } else {
            self.marked.clone()
        }
    }

    fn clear_transfer(&mut self)
        ensures
            final(self).transfer_kind is None,
            final(self).transfer_dest is None,
            final(self).transfer_queue@.len() == 0,
            final(self).conflict_existing is None,
            final(self).conflict_incoming is None,
            final(self).transfer_report.is_empty(),
            *final(self) == (App {
                transfer_kind: None,
                transfer_dest: None,
                transfer_queue: final(self).transfer_queue,
                conflict_existing: None,
                conflict_incoming: None,
                transfer_report: final(self).transfer_report,
                ..*old(self)
            }),
    {
        self.transfer_kind = None;
        self.transfer_dest = None;
        self.transfer_queue = Vec::new();
        self.conflict_existing = None;
        self.conflict_incoming = None;
        self.transfer_report = TransferReport::new();
    }

    /// Opens the export form for the marked entries, or the selected one.
    pub fn begin_export(&mut self, move_entries: bool)
        ensures
            old(self).marked@.len() > 0 || old(self).spec_selected_index() is Some ==> export_started(
                *final(self),
                move_entries,
            ),
            old(self).marked@.len() > 0 || old(self).spec_selected_index() is Some ==> {
                &&& final(self).mode == Mode::TransferSetup
                &&& final(self).form.is_default()
                &&& final(self).transfer_kind == Some(
                    if move_entries {
                        TransferKind::ExportMove
                    } else {
                        TransferKind::ExportCopy
                    },
                )
            },
            !(old(self).marked@.len() > 0 || old(self).spec_selected_index() is Some) ==> final(self).mode == old(self).mode && final(self).transfer_kind == old(self).transfer_kind,
            final(self).vault@ == old(self).vault@,
    {
        if self.services_to_transfer().len() == 0 {
            self.flash(text::to_owned("No entry selected"));
            return;
        }
        self.form = FormState::new();
        self.transfer_kind = Some(
            if move_entries {
                TransferKind::ExportMove
            } else {
                TransferKind::ExportCopy
            },
        );
        self.mode = Mode::TransferSetup;
    }

    /// Opens the import form.
    pub fn begin_import(&mut self)
        ensures
            final(self).form.is_default(),
            *final(self) == (App {
                mode: Mode::TransferSetup,
                form: final(self).form,
                transfer_kind: Some(TransferKind::Import),
                ..*old(self)
            }),
    {
        self.form = FormState::new();
        self.transfer_kind = Some(TransferKind::Import);
        self.mode = Mode::TransferSetup;
    }

    /// Asks to delete the selected entry.
    pub fn begin_delete(&mut self)
        ensures
            old(self).spec_selected_index() is Some ==> *final(self) == (App {
                mode: Mode::ConfirmDelete,
                ..*old(self)
            }),
            old(self).spec_selected_index() is None ==> *final(self) == (App {
                status: final(self).status,
                ..*old(self)
            }),
    {
        if self.selected_entry().is_none() {
            self.flash(text::to_owned("No entry selected"));
            return;
        }
        self.mode = Mode::ConfirmDelete;
    }

    /// Backs out of the current mode: a search drops its filter, a conflict
    /// rename returns to the conflict, a form or dialog returns to the list
    /// and drops any transfer.
    pub fn cancel_mode(&mut self)
        ensures
            old(self).mode == Mode::Search ==> final(self).mode == Mode::List && final(self).filter@.len() == 0
                && final(self).selected == 0,
            old(self).mode == Mode::TransferRename ==> final(self).mode == Mode::TransferConflict
                && final(self).form.is_default(),
            (old(self).mode == Mode::Add || old(self).mode == Mode::Edit || old(self).mode
                == Mode::ConfirmDelete || old(self).mode == Mode::ChangeMaster || old(self).mode
                == Mode::Rename || old(self).mode == Mode::TransferSetup || old(self).mode
                == Mode::TransferConflict || old(self).mode == Mode::Help) ==> final(self).mode
                == Mode::List && final(self).form.is_default() && final(self).transfer_kind is None,
            (old(self).mode == Mode::List || old(self).mode == Mode::Locked) ==> final(self).mode
                == old(self).mode && final(self).form == old(self).form,
            final(self).vault@ == old(self).vault@,
            final(self).running == old(self).running,
    {
        match self.mode {
            Mode::Search => {
                self.filter = String::new();
                self.selected = 0;
                self.sync_list_state();
                self.mode = Mode::List;
            },
            Mode::TransferRename => {
                self.form = FormState::new();
                self.mode = Mode::TransferConflict;
            },
            Mode::Add | Mode::Edit | Mode::ConfirmDelete | Mode::ChangeMaster | Mode::Rename
            | Mode::TransferSetup | Mode::TransferConflict | Mode::Help => {
                self.form = FormState::new();
                self.clear_transfer();
                self.mode = Mode::List;
            },
            Mode::List | Mode::Locked => {},
        }
    }

    /// Keeps the filter and returns to the list.
    pub fn confirm_search(&mut self)
        ensures
            *final(self) == (App {
                mode: Mode::List,
                selected: final(self).selected,
                list_selection: final(self).list_selection,
                ..*old(self)
            }),
    {
        self.mode = Mode::List;
        self.sync_list_state();
    }

    /// Whether typing edits the form in this mode.
    pub open spec fn edits_form(mode: Mode) -> bool {
        ||| mode == Mode::Add
        ||| mode == Mode::Edit
        ||| mode == Mode::ChangeMaster
        ||| mode == Mode::Rename
        ||| mode == Mode::TransferSetup
        ||| mode == Mode::TransferRename
        ||| mode == Mode::Locked
    }

    /// Pasted text goes to the filter while searching, or to the focused
    /// form field.
    pub fn handle_paste(&mut self, pasted: &str)
        ensures
            old(self).mode == Mode::Search ==> final(self).filter@ == old(self).filter@ + pasted@
                && final(self).selected == 0,
            Self::edits_form(old(self).mode) ==> final(self).form.text_of(
                spec_active_field(old(self).mode, old(self).form.field),
            ) == old(self).form.text_of(spec_active_field(old(self).mode, old(self).form.field))
                + pasted@ && final(self).form.same_except(
                &old(self).form,
                spec_active_field(old(self).mode, old(self).form.field),
            ),
            !Self::edits_form(old(self).mode) && old(self).mode != Mode::Search ==> final(self).form == old(self).form && final(self).filter == old(self).filter,
            final(self).mode == old(self).mode,
            final(self).vault@ == old(self).vault@,
    {
        match self.mode {
            Mode::Search => {
                self.filter.append(pasted);
                self.selected = 0;
                self.sync_list_state();
            },
            Mode::Add | Mode::Edit | Mode::ChangeMaster | Mode::Rename | Mode::TransferSetup
            | Mode::TransferRename | Mode::Locked => {
                let mode = self.mode;
                self.form.active_mut(mode).append(pasted);
            },
            Mode::List | Mode::ConfirmDelete | Mode::Help | Mode::TransferConflict => {},
        }
    }

    /// A typed character goes to the filter while searching, or to the
    /// focused form field.
    pub fn type_char(&mut self, c: char)
        ensures
            old(self).mode == Mode::Search ==> final(self).filter@ == old(self).filter@.push(c)
                && !final(self).revealed && final(self).selected == 0,
            Self::edits_form(old(self).mode) ==> final(self).form.text_of(
                spec_active_field(old(self).mode, old(self).form.field),
            ) == old(self).form.text_of(spec_active_field(old(self).mode, old(self).form.field)).push(
                c,
            ) && final(self).form.same_except(
                &old(self).form,
                spec_active_field(old(self).mode, old(self).form.field),
            ),
            !Self::edits_form(old(self).mode) && old(self).mode != Mode::Search ==> final(self).form == old(self).form && final(self).filter == old(self).filter,
            final(self).mode == old(self).mode,
            final(self).vault@ == old(self).vault@,
    {
        match self.mode {
            Mode::Search => {
                text::push_char(&mut self.filter, c);
                self.selected = 0;
                self.revealed = false;
                self.sync_list_state();
            },
            Mode::Add | Mode::Edit | Mode::ChangeMaster | Mode::Rename | Mode::TransferSetup
            | Mode::TransferRename | Mode::Locked => {
                let mode = self.mode;
                text::push_char(self.form.active_mut(mode), c);
            },
            Mode::List | Mode::ConfirmDelete | Mode::Help | Mode::TransferConflict => {},
        }
    }

    /// Removes the last character of the filter while searching, or of the
    /// focused form field.
    pub fn backspace(&mut self)
        ensures
            old(self).mode == Mode::Search && old(self).filter@.len() > 0 ==> final(self).filter@
                == old(self).filter@.drop_last(),
            Self::edits_form(old(self).mode) && old(self).form.text_of(
                spec_active_field(old(self).mode, old(self).form.field),
            ).len() > 0 ==> final(self).form.text_of(
                spec_active_field(old(self).mode, old(self).form.field),
            ) == old(self).form.text_of(
                spec_active_field(old(self).mode, old(self).form.field),
            ).drop_last(),
            Self::edits_form(old(self).mode) ==> final(self).form.same_except(
                &old(self).form,
                spec_active_field(old(self).mode, old(self).form.field),
            ),
            final(self).mode == old(self).mode,
            final(self).vault@ == old(self).vault@,
    {
        match self.mode {
            Mode::Search => {
                text::pop_char(&mut self.filter);
                self.selected = 0;
                self.sync_list_state();
            },
            Mode::Add | Mode::Edit | Mode::ChangeMaster | Mode::Rename | Mode::TransferSetup
            | Mode::TransferRename | Mode::Locked => {
                let mode = self.mode;
                text::pop_char(self.form.active_mut(mode));
            },
            Mode::List | Mode::ConfirmDelete | Mode::Help | Mode::TransferConflict => {},
        }
    }

    /// The vault that a transfer writes to: the main vault for an import,
    /// the export destination for an export.
    pub open spec fn spec_dest(&self) -> Option<VaultView> {
        match self.transfer_kind {
            Some(TransferKind::Import) => Some(self.vault@),
            Some(_) => match self.transfer_dest {
                Some(d) => Some(d@),
                None => None,
            },
            None => None,
        }
    }

    /// Where a save of the transfer destination goes.
    pub open spec fn dest_target_spec(&self) -> SaveTarget {
        if self.transfer_kind == Some(TransferKind::Import) {
            SaveTarget::Main
        } else {
            SaveTarget::TransferDest
        }
    }

    /// Where a save of the transfer destination goes.
    fn dest_target(&self) -> (t: SaveTarget)
        ensures
            t == self.dest_target_spec(),
    {
        match self.transfer_kind {
            Some(TransferKind::Import) => SaveTarget::Main,
            _ => SaveTarget::TransferDest,
        }
    }

    /// Whether a transfer destination is at hand.
    fn has_dest(&self) -> (r: bool)
        ensures
            r == self.spec_dest() is Some,
    {
        match self.transfer_kind {
            Some(TransferKind::Import) => true,
            Some(_) => self.transfer_dest.is_some(),
            None => false,
        }
    }

    /// A copy of the destination's entry stored under `service`.
    fn dest_get(&self, service: &str) -> (r: Option<PasswordEntry>)
        ensures
            match self.spec_dest() {
                Some(d) => match spec_get(d.entries, service@) {
                    Some(e) => r matches Some(x) && x@ == e,
                    None => r is None,
                },
                None => r is None,
            },
    {
        match self.transfer_kind {
            Some(TransferKind::Import) => match self.vault.get(service) {
                Some(e) => Some(e.clone()),
                None => None,
            },
            Some(_) => match &self.transfer_dest {
                Some(d) => match d.get(service) {
                    Some(e) => Some(e.clone()),
                    None => None,
                },
                None => None,
            },
            None => None,
        }
    }

    /// Takes `incoming` into the transfer destination: entries whose service
    /// is free there are copied at once and the destination is saved; the
    /// others wait as conflicts, in order, for a decision each.
    pub fn start_ingest(&mut self, incoming: Vec<PasswordEntry>, move_after: bool)
        ensures
            old(self).spec_dest() is None ==> final(self).vault == old(self).vault
                && final(self).mode == old(self).mode && final(self).awaiting == old(self).awaiting,
            old(self).spec_dest() matches Some(d) ==> {
                let views = crate::vault::entry_views(incoming@);
                &&& final(self).spec_dest() == Some(
                    VaultView { entries: d.entries + ingest_ready(d.entries, views), ..d },
                )
                &&& crate::vault::entry_views(final(self).transfer_queue@) == ingest_conflicts(
                    d.entries,
                    views,
                )
                &&& crate::vault::string_views(final(self).transfer_report.copied@)
                    == crate::vault::string_views(old(self).transfer_report.copied@)
                    + ingest_ready(d.entries, views).map_values(|e: EntryView| e.service)
                &&& final(self).transfer_kind == old(self).transfer_kind
                &&& final(self).awaiting == Some(Request::Save(old(self).dest_target_spec()))
                &&& final(self).pending == Some(Pending::SavedIngest(move_after))
            },
            old(self).transfer_kind != Some(TransferKind::Import) ==> final(self).vault == old(
                self).vault,
    {
        if !self.has_dest() {
            self.flash(text::to_owned("No destination vault"));
            return;
        }
        let ghost d = self.spec_dest()->0;
        let ghost views = crate::vault::entry_views(incoming@);
        let mut conflicts: Vec<PasswordEntry> = Vec::new();
        let mut ready: Vec<PasswordEntry> = Vec::new();
        let mut k: usize = 0;
        while k < incoming.len()
            invariant
                k <= incoming@.len(),
                views == crate::vault::entry_views(incoming@),
                self.spec_dest() == Some(d),
                crate::vault::entry_views(conflicts@) == views.take(k as int).filter(
                    |e: EntryView| crate::vault::has_service(d.entries, e.service),
                ),
                crate::vault::entry_views(ready@) == views.take(k as int).filter(
                    |e: EntryView| !crate::vault::has_service(d.entries, e.service),
                ),
            decreases incoming@.len() - k,
        {
            let entry = incoming[k].clone();
            let ghost e = views[k as int];
            let ghost c0 = crate::vault::entry_views(conflicts@);
            let ghost r0 = crate::vault::entry_views(ready@);
            proof {
                assert(views.take(k + 1) =~= views.take(k as int).push(e));
                views.take(k as int).lemma_filter_push(
                    e,
                    |e: EntryView| crate::vault::has_service(d.entries, e.service),
                );
                views.take(k as int).lemma_filter_push(
                    e,
                    |e: EntryView| !crate::vault::has_service(d.entries, e.service),
                );
                assert(entry@ == e);
            }
            let found = self.dest_get(entry.service.as_str()).is_some();
            proof {
                assert(found == crate::vault::has_service(d.entries, e.service)) by {
                    if crate::vault::has_service(d.entries, e.service) {
                        crate::vault::lemma_has_service_first_match(d.entries, e.service);
                    }
                }
            }
            if found {
                conflicts.push(entry);
                proof {
                    assert(crate::vault::entry_views(conflicts@) =~= c0.push(e));
                }
            } else {
                ready.push(entry);
                proof {
                    assert(crate::vault::entry_views(ready@) =~= r0.push(e));
                }
            }
            k = k + 1;
        }
        proof {
            assert(views.take(k as int) =~= views);
        }
        let ghost rviews = crate::vault::entry_views(ready@);
        let ghost copied0 = crate::vault::string_views(self.transfer_report.copied@);
        let mut k: usize = 0;
        while k < ready.len()
            invariant
                k <= ready@.len(),
                rviews == crate::vault::entry_views(ready@),
                self.transfer_kind == old(self).transfer_kind,
                self.transfer_kind == Some(TransferKind::Import) ==> self.vault@ == (VaultView {
                    entries: d.entries + rviews.take(k as int),
                    ..d
                }),
                self.transfer_kind != Some(TransferKind::Import) ==> self.vault == old(self).vault,
                self.spec_dest() == Some(VaultView { entries: d.entries + rviews.take(k as int), ..d }),
                crate::vault::string_views(self.transfer_report.copied@) == copied0 + rviews.take(
                    k as int,
                ).map_values(|e: EntryView| e.service),
            decreases ready@.len() - k,
        {
            let entry = ready[k].clone();
            let ghost e = rviews[k as int];
            let ghost cp = self.transfer_report.copied@;
            proof {
                assert(rviews.take(k + 1) =~= rviews.take(k as int).push(e));
                assert(d.entries + rviews.take(k + 1) =~= (d.entries + rviews.take(k as int)).push(e));
                assert(entry@ == e);
            }
            let name = entry.service.clone();
            self.transfer_report.copied.push(name);
            proof {
                assert(crate::vault::string_views(self.transfer_report.copied@) =~= crate::vault::string_views(cp).push(e.service));
                assert(rviews.take(k + 1).map_values(|e: EntryView| e.service) =~= rviews.take(
                    k as int,
                ).map_values(|e: EntryView| e.service).push(e.service));
            }
            match self.transfer_kind {
                Some(TransferKind::Import) => self.vault.absorb_new(entry),
                _ => match self.transfer_dest.as_mut() {
                    Some(dv) => dv.absorb_new(entry),
                    None => {},
                },
            }
            k = k + 1;
        }
        proof {
            assert(rviews.take(k as int) =~= rviews);
        }
        self.transfer_queue = conflicts;
        self.awaiting = Some(Request::Save(self.dest_target()));
        self.pending = Some(Pending::SavedIngest(move_after));
    }

    /// Shows the next conflict, or ends the transfer when none is left.
    fn show_next_conflict(&mut self)
        ensures
            old(self).transfer_queue@.len() > 0 && old(self).spec_dest() is Some ==> {
                &&& final(self).mode == Mode::TransferConflict
                &&& final(self).conflict_incoming == Some(old(self).transfer_queue@[0])
                &&& final(self).form.is_default()
                &&& final(self).transfer_queue == old(self).transfer_queue
                &&& final(self).vault == old(self).vault
                &&& final(self).transfer_kind == old(self).transfer_kind
                &&& final(self).transfer_dest == old(self).transfer_dest
                &&& final(self).transfer_report == old(self).transfer_report
            },
            !(old(self).transfer_queue@.len() > 0 && old(self).spec_dest() is Some) ==> (final(
                self).status matches Some((m, _)) && m@ == report_text(
                old(self).transfer_report.copied@.len(),
                old(self).transfer_report.overwritten@.len(),
                old(self).transfer_report.renamed@.len(),
                old(self).transfer_report.skipped@.len(),
            )),
            !(old(self).transfer_queue@.len() > 0 && old(self).spec_dest() is Some) ==> final(self).mode == Mode::List && final(self).transfer_kind is None,
            !(old(self).transfer_queue@.len() > 0 && old(self).spec_dest() is Some) && old(self).transfer_kind
                == Some(TransferKind::ExportMove) && !old(self).vault@.locked ==> final(self).vault@ == (VaultView {
                entries: entries_without_all(
                    old(self).vault@.entries,
                    moved_names(old(self).transfer_report),
                ),
                ..old(self).vault@
            }),
            !(old(self).transfer_queue@.len() > 0 && old(self).spec_dest() is Some) && old(self).transfer_kind
                != Some(TransferKind::ExportMove) ==> final(self).vault == old(self).vault,
    {
        if self.transfer_queue.len() == 0 || !self.has_dest() {
            self.finish_transfer();
            return;
        }
        let incoming = self.transfer_queue[0].clone();
        let existing = self.dest_get(incoming.service.as_str());
        self.conflict_incoming = Some(incoming);
        self.conflict_existing = existing;
        self.form = FormState::new();
        self.mode = Mode::TransferConflict;
    }

    /// Opens the rename form for the conflicting entry, offering the first
    /// free name `<service>-<n>` in the destination.
    pub fn begin_conflict_rename(&mut self)
        ensures
            old(self).conflict_incoming is None ==> *final(self) == *old(self),
            old(self).conflict_incoming matches Some(inc) ==> {
                &&& final(self).mode == Mode::TransferRename
                &&& final(self).form.field == 0
                &&& final(self).form.username@.len() == 0
                &&& final(self).form.password@.len() == 0
                &&& (old(self).spec_dest() matches Some(d) ==> (d.entries.len() < usize::MAX ==>
                exists|n: nat|
                    1 <= n <= d.entries.len() + 1 && final(self).form.service@
                        == crate::vault::candidate_name(inc@.service, n)
                        && !crate::vault::has_service(d.entries, final(self).form.service@)
                        && forall|m: nat|
                        1 <= m < n ==> crate::vault::has_service(
                            d.entries,
                            #[trigger] crate::vault::candidate_name(inc@.service, m),
                        )))
            },
    {
        let service = match &self.conflict_incoming {
            Some(e) => e.service.clone(),
            None => {
                return;
            },
        };
        let proposed = match self.transfer_kind {
            Some(TransferKind::Import) => self.proposed_name(&self.vault, service.as_str()),
            Some(_) => match &self.transfer_dest {
                Some(d) => self.proposed_name(d, service.as_str()),
                None => join2(service.as_str(), "-1"),
            },
            None => join2(service.as_str(), "-1"),
        };
        let ghost inc = self.conflict_incoming->0;
        assert(service@ == inc@.service);
        let mut form = FormState::new();
        form.service = proposed;
        self.form = form;
        self.mode = Mode::TransferRename;
        assert(self.spec_dest() == old(self).spec_dest());
    }

    fn proposed_name(&self, dest: &Vault, service: &str) -> (r: String)
        ensures
            dest@.entries.len() < usize::MAX ==> exists|n: nat|
                1 <= n <= dest@.entries.len() + 1 && r@ == crate::vault::candidate_name(service@, n)
                    && !crate::vault::has_service(dest@.entries, r@) && forall|m: nat|
                    1 <= m < n ==> crate::vault::has_service(
                        dest@.entries,
                        #[trigger] crate::vault::candidate_name(service@, m),
                    ),
    {
        if dest.entries().len() < usize::MAX {
            dest.unused_name(service)
        } else {
            join2(service, "-1")
        }
    }

    /// Applies the decision about the first conflicting entry.
    pub fn resolve_conflict(&mut self, decision: ConflictDecision) -> (r: Result<(), StashError>)
        ensures
            r is Ok,
            old(self).transfer_queue@.len() == 0 ==> final(self).mode == Mode::List
                && final(self).transfer_kind is None,
            (old(self).transfer_queue@.len() == 0 || decision is Abort) && old(self).transfer_kind
                == Some(TransferKind::ExportMove) && !old(self).vault@.locked ==> final(self).vault@
                == (VaultView {
                entries: entries_without_all(
                    old(self).vault@.entries,
                    moved_names(old(self).transfer_report),
                ),
                ..old(self).vault@
            }),
            old(self).transfer_queue@.len() > 0 && decision is Skip ==> if old(
                self).transfer_queue@.len() > 1 && old(self).spec_dest() is Some {
                &&& final(self).spec_dest() == old(self).spec_dest()
                &&& crate::vault::string_views(final(self).transfer_report.skipped@)
                    == crate::vault::string_views(old(self).transfer_report.skipped@).push(
                    old(self).transfer_queue@[0]@.service,
                )
            } else {
                &&& old(self).transfer_kind != Some(TransferKind::ExportMove) ==> final(self).vault
                    == old(self).vault
                &&& final(self).status matches Some((m, _)) && m@ == report_text(
                    old(self).transfer_report.copied@.len(),
                    old(self).transfer_report.overwritten@.len(),
                    old(self).transfer_report.renamed@.len(),
                    old(self).transfer_report.skipped@.len() + 1,
                )
            },
            decision is Skip ==> conflict_skipped(*old(self), *final(self)),
            decision is Overwrite ==> conflict_overwritten(*old(self), *final(self)),
            old(self).transfer_queue@.len() > 0 ==> match decision {
                ConflictDecision::Skip => if old(self).transfer_queue@.len() > 1
                    && old(self).spec_dest() is Some {
                    final(self).mode == Mode::TransferConflict
                        && final(self).conflict_incoming == Some(old(self).transfer_queue@[1])
                } else {
                    final(self).mode == Mode::List && final(self).transfer_kind is None
                },
                ConflictDecision::Abort => final(self).mode == Mode::List
                    && final(self).transfer_kind is None,
                ConflictDecision::Overwrite => old(self).spec_dest() matches Some(d) ==> {
                    let inc = old(self).transfer_queue@[0]@;
                    &&& final(self).awaiting == Some(Request::Save(old(self).dest_target_spec()))
                    &&& (final(self).pending matches Some(Pending::SavedOverwrite(s)) && s@
                        == inc.service)
                    &&& final(self).spec_dest() == Some(
                        VaultView {
                            entries: match crate::vault::spec_position(d.entries, inc.service) {
                                Some(i) => d.entries.update(i, inc),
                                None => d.entries.push(inc),
                            },
                            ..d
                        },
                    )
                },
                ConflictDecision::Rename(name) => old(self).spec_dest() matches Some(d) ==> (
                if !d.locked && text::spec_trim(name@).len() > 0 && !crate::vault::has_service(
                    d.entries,
                    text::spec_trim(name@),
                ) {
                    let inc = old(self).transfer_queue@[0]@;
                    &&& final(self).awaiting == Some(Request::Save(old(self).dest_target_spec()))
                    &&& (final(self).pending matches Some(Pending::SavedRename(f, t)) && f@
                        == inc.service && t@ == text::spec_trim(name@))
                    &&& final(self).spec_dest() == Some(
                        VaultView {
                            entries: d.entries.push(
                                EntryView { service: text::spec_trim(name@), ..inc },
                            ),
                            ..d
                        },
                    )
                } else {
                    final(self).mode == Mode::TransferRename && final(self).spec_dest()
                        == old(self).spec_dest()
                }),
            },

    {
        if self.transfer_queue.len() == 0 {
            self.finish_transfer();
            return Ok(());
        }
        let incoming = self.transfer_queue[0].clone();
        match decision {
            ConflictDecision::Abort => {
                self.flash(text::to_owned("Transfer aborted"));
                self.finish_transfer();
                return Ok(());
            },
            ConflictDecision::Skip => {
                self.transfer_report.skipped.push(incoming.service);
                self.transfer_queue.remove(0);
            },
            ConflictDecision::Overwrite => {
                if !self.has_dest() {
                    self.finish_transfer();
                    return Ok(());
                }
                let service = incoming.service.clone();
                match self.transfer_kind {
                    Some(TransferKind::Import) => self.vault.replace_entry(incoming),
                    _ => match self.transfer_dest.as_mut() {
                        Some(d) => d.replace_entry(incoming),
                        None => {},
                    },
                }
                self.awaiting = Some(Request::Save(self.dest_target()));
                self.pending = Some(Pending::SavedOverwrite(service));
                return Ok(());
            },
            ConflictDecision::Rename(new_name) => {
                if !self.has_dest() {
                    self.finish_transfer();
                    return Ok(());
                }
                let result = match self.transfer_kind {
                    Some(TransferKind::Import) => self.vault.absorb_renamed(
                        incoming,
                        new_name.as_str(),
                    ),
                    _ => match self.transfer_dest.as_mut() {
                        Some(d) => d.absorb_renamed(incoming, new_name.as_str()),
                        None => Err(StashError::NoServicesSelected),
                    },
                };
                match result {
                    Ok((from, to)) => {
                        self.awaiting = Some(Request::Save(self.dest_target()));
                        self.pending = Some(Pending::SavedRename(from, to));
                    },
                    Err(err) => {
                        let message = err.message();
                        self.flash(message);
                        self.mode = Mode::TransferRename;
                    },
                }
                return Ok(());
            },
        }
        self.next_conflict_or_finish();
        proof {
            let b = *old(self);
            let a = *self;
            if b.transfer_queue@.len() > 1 && b.spec_dest() is Some {
                assert(a.spec_dest() == b.spec_dest());
                assert(a.mode == Mode::TransferConflict);
                assert(a.conflict_incoming == Some(b.transfer_queue@[1]));
                assert(crate::vault::string_views(a.transfer_report.skipped@)
                    == crate::vault::string_views(b.transfer_report.skipped@).push(
                    b.transfer_queue@[0]@.service));
            } else {
                assert(a.mode == Mode::List);
                assert(a.transfer_kind is None);
                assert(b.transfer_kind != Some(TransferKind::ExportMove) ==> a.vault == b.vault);
                assert(a.status matches Some((m, _)) && m@ == report_text(
                    b.transfer_report.copied@.len(),
                    b.transfer_report.overwritten@.len(),
                    b.transfer_report.renamed@.len(),
                    b.transfer_report.skipped@.len() + 1,
                ));
            }
            assert(conflict_skipped(b, a));
        }
        Ok(())
    }

    fn next_conflict_or_finish(&mut self)
        ensures
            old(self).transfer_queue@.len() > 0 && old(self).spec_dest() is Some ==> final(self).mode
                == Mode::TransferConflict && final(self).conflict_incoming == Some(
                old(self).transfer_queue@[0],
            ),
            !(old(self).transfer_queue@.len() > 0 && old(self).spec_dest() is Some) ==> final(self).mode
                == Mode::List && final(self).transfer_kind is None,
            old(self).transfer_queue@.len() > 0 && old(self).spec_dest() is Some ==> final(self).vault
                == old(self).vault && final(self).transfer_kind == old(self).transfer_kind && final(
                self).transfer_dest == old(self).transfer_dest && final(self).transfer_report == old(
                self).transfer_report,
            !(old(self).transfer_queue@.len() > 0 && old(self).spec_dest() is Some) ==> (final(
                self).status matches Some((m, _)) && m@ == report_text(
                old(self).transfer_report.copied@.len(),
                old(self).transfer_report.overwritten@.len(),
                old(self).transfer_report.renamed@.len(),
                old(self).transfer_report.skipped@.len(),
            )),
            !(old(self).transfer_queue@.len() > 0 && old(self).spec_dest() is Some) && old(self).transfer_kind == Some(TransferKind::ExportMove) && !old(self).vault@.locked ==> final(self).vault@ == (VaultView {
                entries: entries_without_all(
                    old(self).vault@.entries,
                    moved_names(old(self).transfer_report),
                ),
                ..old(self).vault@
            }),
            !(old(self).transfer_queue@.len() > 0 && old(self).spec_dest() is Some) && old(self).transfer_kind != Some(TransferKind::ExportMove) ==> final(self).vault == old(
                self).vault,
    {
        if self.transfer_queue.len() == 0 {
            self.finish_transfer();
        } else {
            self.show_next_conflict();
        }
    }

    /// Ends a transfer: a move deletes what it carried over from this
    /// vault, the report is shown, and the list returns.
    fn finish_transfer(&mut self)
        ensures
            final(self).mode == Mode::List,
            final(self).transfer_kind is None,
            final(self).form.is_default(),
            old(self).transfer_kind == Some(TransferKind::ExportMove) && !old(self).vault@.locked
                ==> final(self).vault@ == (VaultView {
                entries: entries_without_all(
                    old(self).vault@.entries,
                    moved_names(old(self).transfer_report),
                ),
                ..old(self).vault@
            }),
            old(self).transfer_kind != Some(TransferKind::ExportMove) ==> final(self).vault == old(
                self).vault,
            final(self).status matches Some((m, _)) && m@ == report_text(
                old(self).transfer_report.copied@.len(),
                old(self).transfer_report.overwritten@.len(),
                old(self).transfer_report.renamed@.len(),
                old(self).transfer_report.skipped@.len(),
            ),
    {
        let moved = match self.transfer_kind {
            Some(TransferKind::ExportMove) => true,
            _ => false,
        };
        if moved {
            let ghost report = self.transfer_report;
            let ghost copied = crate::vault::string_views(report.copied@);
            let ghost overwritten = crate::vault::string_views(report.overwritten@);
            let ghost renamed = report.renamed@.map_values(|p: (String, String)| p.0@);
            let mut names: Vec<String> = Vec::new();
            let mut k: usize = 0;
            while k < self.transfer_report.copied.len()
                invariant
                    k <= self.transfer_report.copied@.len(),
                    self.transfer_report == report,
                    copied == crate::vault::string_views(report.copied@),
                    overwritten == crate::vault::string_views(report.overwritten@),
                    renamed == report.renamed@.map_values(|p: (String, String)| p.0@),
                    crate::vault::string_views(names@) == copied.take(k as int),
                decreases self.transfer_report.copied@.len() - k,
            {
                let ghost before = names@;
                names.push(self.transfer_report.copied[k].clone());
                proof {
                    assert(copied.take(k + 1) =~= copied.take(k as int).push(copied[k as int]));
                    assert(crate::vault::string_views(names@) =~= crate::vault::string_views(
                        before,
                    ).push(copied[k as int]));
                }
                k = k + 1;
            }
            proof {
                assert(copied.take(k as int) =~= copied);
            }
            let mut k: usize = 0;
            while k < self.transfer_report.overwritten.len()
                invariant
                    k <= self.transfer_report.overwritten@.len(),
                    self.transfer_report == report,
                    copied == crate::vault::string_views(report.copied@),
                    overwritten == crate::vault::string_views(report.overwritten@),
                    renamed == report.renamed@.map_values(|p: (String, String)| p.0@),
                    crate::vault::string_views(names@) == copied + overwritten.take(k as int),
                decreases self.transfer_report.overwritten@.len() - k,
            {
                let ghost before = names@;
                names.push(self.transfer_report.overwritten[k].clone());
                proof {
                    assert(overwritten.take(k + 1) =~= overwritten.take(k as int).push(
                        overwritten[k as int],
                    ));
                    assert(crate::vault::string_views(names@) =~= crate::vault::string_views(
                        before,
                    ).push(overwritten[k as int]));
                }
                k = k + 1;
            }
            proof {
                assert(overwritten.take(k as int) =~= overwritten);
            }
            let mut k: usize = 0;
            while k < self.transfer_report.renamed.len()
                invariant
                    k <= self.transfer_report.renamed@.len(),
                    self.transfer_report == report,
                    copied == crate::vault::string_views(report.copied@),
                    overwritten == crate::vault::string_views(report.overwritten@),
                    renamed == report.renamed@.map_values(|p: (String, String)| p.0@),
                    crate::vault::string_views(names@) == copied + overwritten + renamed.take(
                        k as int,
                    ),
                decreases self.transfer_report.renamed@.len() - k,
            {
                let ghost before = names@;
                names.push(self.transfer_report.renamed[k].0.clone());
                proof {
                    assert(renamed.take(k + 1) =~= renamed.take(k as int).push(renamed[k as int]));
                    assert(crate::vault::string_views(names@) =~= crate::vault::string_views(
                        before,
                    ).push(renamed[k as int]));
                }
                k = k + 1;
            }
            proof {
                assert(renamed.take(k as int) =~= renamed);
                assert(crate::vault::string_views(names@) == moved_names(report));
            }
            let ghost all = crate::vault::string_views(names@);
            let mut k: usize = 0;
            while k < names.len()
                invariant
                    k <= names@.len(),
                    all == crate::vault::string_views(names@),
                    self.transfer_kind == old(self).transfer_kind,
                    self.transfer_report == report,
                    !old(self).vault@.locked ==> self.vault@ == (VaultView {
                        entries: entries_without_all(old(self).vault@.entries, all.take(k as int)),
                        ..old(self).vault@
                    }),
                decreases names@.len() - k,
            {
                let ghost before = self.vault@;
                let _ = self.vault.delete(names[k].as_str());
                proof {
                    assert(all.take(k + 1).drop_last() =~= all.take(k as int));
                    assert(all.take(k + 1).last() == names@[k as int]@);
                    if !before.locked && !crate::vault::has_service(before.entries, names@[k as int]@) {
                        lemma_entries_without_absent(before.entries, names@[k as int]@);
                    }
                }
                self.unmark_exact(names[k].as_str());
                k = k + 1;
            }
            proof {
                assert(all.take(k as int) =~= all);
            }
            if names.len() > 0 {
                self.outbox.push(Request::Save(SaveTarget::Main));
            }
        }
        let report = self.report_message();
        self.clear_transfer();
        self.form = FormState::new();
        self.mode = Mode::List;
        self.sync_list_state();
        self.flash(report);
    }

    /// Drops the mark that is exactly `name`.
    fn unmark_exact(&mut self, name: &str)
        ensures
            *final(self) == (App { marked: final(self).marked, ..*old(self) }),
            (exists|k: int| 0 <= k < old(self).marked@.len() && #[trigger] old(self).marked@[k]@
                == name@) ==> exists|k: int|
                0 <= k < old(self).marked@.len() && #[trigger] old(self).marked@[k]@ == name@
                    && (forall|j: int| 0 <= j < k ==> old(self).marked@[j]@ != name@) && final(
                    self).marked@ == old(self).marked@.remove(k),
            !(exists|k: int| 0 <= k < old(self).marked@.len() && #[trigger] old(self).marked@[k]@
                == name@) ==> final(self).marked == old(self).marked,
    {
        let mut k: usize = 0;
        while k < self.marked.len()
            invariant
                *self == *old(self),
                k <= self.marked@.len(),
                forall|j: int| 0 <= j < k ==> self.marked@[j]@ != name@,
            decreases self.marked@.len() - k,
        {
            if text::str_eq(self.marked[k].as_str(), name) {
                let ghost k0 = k as int;
                self.marked.remove(k);
                proof {
                    assert(old(self).marked@[k0]@ == name@);
                }
                return;
            }
            k = k + 1;
        }
    }

    /// `Copied <a>, overwrote <b>, renamed <c>, skipped <d>`.
    fn report_message(&self) -> (r: String)
        ensures
            r@ == report_text(
                self.transfer_report.copied@.len(),
                self.transfer_report.overwritten@.len(),
                self.transfer_report.renamed@.len(),
                self.transfer_report.skipped@.len(),
            ),
    {
        let mut out = text::to_owned("Copied ");
        out.append(text::decimal(self.transfer_report.copied.len()).as_str());
        out.append(", overwrote ");
        out.append(text::decimal(self.transfer_report.overwritten.len()).as_str());
        out.append(", renamed ");
        out.append(text::decimal(self.transfer_report.renamed.len()).as_str());
        out.append(", skipped ");
        out.append(text::decimal(self.transfer_report.skipped.len()).as_str());
        out
    }

    /// Starts the transfer the setup form describes: an import opens the
    /// source vault; an export first asks whether the destination exists.
    fn submit_transfer_setup(&mut self)
        ensures
            text::spec_trim(old(self).form.service@).len() == 0 ==> final(self).awaiting == old(
                self).awaiting && final(self).mode == old(self).mode,
            text::spec_trim(old(self).form.service@).len() > 0 ==> match old(self).transfer_kind {
                Some(TransferKind::Import) => (final(self).awaiting matches Some(
                    Request::OpenVault { path, master },
                ) && path@ == text::spec_trim(old(self).form.service@) && master@ == old(
                    self).form.password@) && final(self).pending == Some(Pending::OpenedImportSource),
                Some(_) => (final(self).awaiting matches Some(Request::ProbePath(path))
                    && path@ == text::spec_trim(old(self).form.service@)),
                None => final(self).awaiting == old(self).awaiting,
            },
            final(self).vault == old(self).vault,
    {
        let path = text::to_owned(text::trim(self.form.service.as_str()));
        if path.as_str().is_empty() {
            self.flash(text::to_owned("Path must not be empty"));
            return;
        }
        let master = self.form.password.clone();
        match self.transfer_kind {
            Some(TransferKind::Import) => {
                self.awaiting = Some(Request::OpenVault { path, master });
                self.pending = Some(Pending::OpenedImportSource);
            },
            Some(_) => {
                let probe = path.clone();
                self.awaiting = Some(Request::ProbePath(probe));
                self.pending = Some(Pending::ProbedDest(path));
            },
            None => self.flash(text::to_owned("No transfer in progress")),
        }
    }

    /// With the export destination at hand, takes the entries to export
    /// into it.
    fn continue_export(&mut self, dest: Vault)
        ensures
            old(self).transfer_kind != Some(TransferKind::Import) ==> final(self).vault == old(
                self).vault,
            (old(self).transfer_kind == Some(TransferKind::ExportCopy) || old(self).transfer_kind
                == Some(TransferKind::ExportMove)) && (forall|k: int|
                0 <= k < old(self).spec_transfer_names().len() ==> crate::vault::has_service(
                    old(self).vault@.entries,
                    #[trigger] old(self).spec_transfer_names()[k],
                )) ==> final(self).awaiting == Some(Request::Save(SaveTarget::TransferDest))
                && final(self).pending == Some(
                Pending::SavedIngest(old(self).transfer_kind == Some(TransferKind::ExportMove)),
            ) && (final(self).transfer_dest matches Some(d) && d@.path == dest@.path && d@.salt
                == dest@.salt && d@.key == dest@.key),
            !(forall|k: int|
                0 <= k < old(self).spec_transfer_names().len() ==> crate::vault::has_service(
                    old(self).vault@.entries,
                    #[trigger] old(self).spec_transfer_names()[k],
                )) ==> final(self).awaiting == old(self).awaiting && final(self).transfer_dest
                == old(self).transfer_dest,
    {
        let names = self.services_to_transfer();
        proof {
            assert forall|k: int| 0 <= k < names@.len() implies #[trigger] names@[k]@
                == self.spec_transfer_names()[k] by {
                assert(crate::vault::string_views(names@)[k] == names@[k]@);
            }
        }
        match self.vault.selected_entries(names.as_slice()) {
            Ok(incoming) => {
                self.transfer_dest = Some(dest);
                let move_after = match self.transfer_kind {
                    Some(TransferKind::ExportMove) => true,
                    _ => false,
                };
                self.start_ingest(incoming, move_after);
            },
            Err(err) => {
                let message = err.message();
                self.flash(message);
            },
        }
    }

    /// Submits the form of the current mode.
    pub fn submit_form(&mut self) -> (r: Result<(), StashError>)
        ensures
            r is Ok,
            old(self).mode == Mode::Add ==> add_submitted(*old(self), *final(self)),
            old(self).mode == Mode::Edit ==> edit_submitted(*old(self), *final(self)),
            old(self).mode == Mode::Rename ==> rename_submitted(*old(self), *final(self)),
            old(self).mode == Mode::ChangeMaster ==> master_submitted(*old(self), *final(self)),
            old(self).mode == Mode::TransferSetup ==> transfer_setup_submitted(*old(self), *final(self)),
            old(self).mode == Mode::TransferRename ==> transfer_rename_submitted(
                *old(self),
                *final(self),
            ),
            old(self).mode == Mode::Edit ==> final(self).mode == Mode::Edit,
            old(self).mode == Mode::Edit ==> if !old(self).vault@.locked && text::spec_trim(
                old(self).form.username@,
            ).len() > 0 && crate::vault::has_service(
                old(self).vault@.entries,
                old(self).form.service@,
            ) {
                let i = crate::vault::spec_position(
                    old(self).vault@.entries,
                    old(self).form.service@,
                )->0;
                &&& final(self).vault@ == (VaultView {
                    entries: crate::vault::updated_entries(
                        old(self).vault@.entries,
                        i,
                        old(self).form.username@,
                        if old(self).form.password@.len() == 0 {
                            old(self).vault@.entries[i].password
                        } else {
                            old(self).form.password@
                        },
                        Some(old(self).form.url@),
                        Some(old(self).form.notes@),
                    ),
                    ..old(self).vault@
                })
                &&& final(self).awaiting == Some(Request::Save(SaveTarget::Main))
                &&& (final(self).pending matches Some(Pending::Updated(s)) && s@ == old(
                    self).form.service@)
            } else {
                final(self).vault@ == old(self).vault@ && final(self).form == old(self).form
            },
            old(self).mode == Mode::Rename ==> match old(self).spec_selected_index() {
                Some(i) => {
                    let from = old(self).vault@.entries[i].service;
                    let to = text::spec_trim(old(self).form.service@);
                    if !old(self).vault@.locked && to.len() > 0 && !crate::vault::taken_by_other(
                        old(self).vault@.entries,
                        crate::vault::spec_position(old(self).vault@.entries, from)->0,
                        to,
                    ) {
                        &&& final(self).vault@ == (VaultView {
                            entries: crate::vault::renamed_entries(
                                old(self).vault@.entries,
                                crate::vault::spec_position(old(self).vault@.entries, from)->0,
                                to,
                            ),
                            ..old(self).vault@
                        })
                        &&& final(self).awaiting == Some(Request::Save(SaveTarget::Main))
                    } else {
                        final(self).vault@ == old(self).vault@ && final(self).mode == Mode::Rename
                    }
                },
                None => final(self).vault@ == old(self).vault@ && final(self).mode == Mode::List,
            },
            old(self).mode == Mode::ChangeMaster && old(self).form.password@ != old(
                self).form.confirm@ ==> final(self).mode == Mode::ChangeMaster && final(self).vault
                == old(self).vault,
            old(self).mode == Mode::ChangeMaster && old(self).form.password@ == old(
                self).form.confirm@ ==> if !old(self).vault@.locked && old(
                self).form.password@.len() > 0 {
                ||| (final(self).vault@ == (VaultView {
                    salt: final(self).vault@.salt,
                    key: crate::encryption::spec_derive_key(
                        old(self).form.password@,
                        final(self).vault@.salt,
                    ),
                    ..old(self).vault@
                }) && final(self).awaiting == Some(Request::Save(SaveTarget::Main))
                    && final(self).pending == Some(Pending::MasterChanged))
                ||| (final(self).vault@ == old(self).vault@ && final(self).mode
                    == Mode::ChangeMaster)
            } else {
                final(self).vault@ == old(self).vault@ && final(self).mode == Mode::ChangeMaster
            },
            old(self).mode == Mode::TransferSetup ==> {
                &&& final(self).vault == old(self).vault
                &&& text::spec_trim(old(self).form.service@).len() == 0 ==> final(self).awaiting
                    == old(self).awaiting && final(self).mode == old(self).mode
                &&& text::spec_trim(old(self).form.service@).len() > 0 ==> match old(self).transfer_kind {
                    Some(TransferKind::Import) => (final(self).awaiting matches Some(
                        Request::OpenVault { path, master },
                    ) && path@ == text::spec_trim(old(self).form.service@) && master@ == old(
                        self).form.password@) && final(self).pending == Some(
                        Pending::OpenedImportSource,
                    ),
                    Some(_) => (final(self).awaiting matches Some(Request::ProbePath(path))
                        && path@ == text::spec_trim(old(self).form.service@)),
                    None => final(self).awaiting == old(self).awaiting,
                }
            },
            old(self).mode == Mode::TransferRename ==> {
                &&& old(self).transfer_queue@.len() == 0 ==> final(self).mode == Mode::List
                    && final(self).transfer_kind is None
                &&& old(self).transfer_queue@.len() > 0 ==> (old(self).spec_dest() matches Some(d)
                    ==> if !d.locked && text::spec_trim(old(self).form.service@).len() > 0
                    && !crate::vault::has_service(
                    d.entries,
                    text::spec_trim(old(self).form.service@),
                ) {
                    final(self).awaiting == Some(Request::Save(old(self).dest_target_spec()))
                } else {
                    final(self).mode == Mode::TransferRename && final(self).spec_dest() == old(
                        self).spec_dest()
                })
            },
            old(self).mode == Mode::Locked ==> (final(self).awaiting matches Some(
                Request::ReopenVault { master },
            ) && master@ == old(self).form.password@) && final(self).pending == Some(
                Pending::Unlocked,
            ) && final(self).mode == Mode::Locked && final(self).vault == old(self).vault
                && final(self).form == old(self).form,
            (old(self).mode == Mode::List || old(self).mode == Mode::Search || old(self).mode
                == Mode::ConfirmDelete || old(self).mode == Mode::Help || old(self).mode
                == Mode::TransferConflict) ==> *final(self) == *old(self),
    {
        match self.mode {
            Mode::Add => {
                let result = self.vault.add_full(
                    self.form.service.as_str(),
                    self.form.username.as_str(),
                    self.form.password.as_str(),
                    self.form.url.as_str(),
                    self.form.notes.as_str(),
                );
                match result {
                    Ok(()) => {
                        self.awaiting = Some(Request::Save(SaveTarget::Main));
                        self.pending = Some(Pending::Added(self.form.service.clone()));
                    },
                    Err(err) => {
                        let message = err.message();
                        self.flash(message);
                    },
                }
            },
            Mode::Edit => {
                let password = if self.form.password.as_str().is_empty() {
                    None
                } else {
                    Some(self.form.password.as_str())
                };
                let result = self.vault.update_entry(
                    self.form.service.as_str(),
                    self.form.username.as_str(),
                    password,
                    Some(self.form.url.as_str()),
                    Some(self.form.notes.as_str()),
                );
                match result {
                    Ok(()) => {
                        self.awaiting = Some(Request::Save(SaveTarget::Main));
                        self.pending = Some(Pending::Updated(self.form.service.clone()));
                    },
                    Err(err) => {
                        let message = err.message();
                        self.flash(message);
                    },
                }
            },
            Mode::Rename => {
                let from = match self.selected_service() {
                    Some(s) => s,
                    None => {
                        self.flash(text::to_owned("No entry selected"));
                        self.mode = Mode::List;
                        return Ok(());
                    },
                };
                let to = self.form.service.clone();
                proof {
                    text::lemma_eq_ignore_ascii_case_equivalence(from@, from@, from@);
                    self.lemma_selected_in_range();
                    let i = self.spec_selected_index()->0;
                    assert(crate::vault::same_service(self.vault@.entries[i].service, from@));
                }
                match self.vault.rename(from.as_str(), to.as_str()) {
                    Ok(()) => {
                        self.awaiting = Some(Request::Save(SaveTarget::Main));
                        self.pending = Some(Pending::Renamed(to));
                    },
                    Err(err) => {
                        let message = err.message();
                        self.flash(message);
                    },
                }
            },
            Mode::ChangeMaster => {
                if !text::str_eq(self.form.password.as_str(), self.form.confirm.as_str()) {
                    self.flash(text::to_owned("Master passwords do not match"));
                    return Ok(());
                }
                match self.vault.change_master(self.form.password.as_str()) {
                    Ok(()) => {
                        self.awaiting = Some(Request::Save(SaveTarget::Main));
                        self.pending = Some(Pending::MasterChanged);
                    },
                    Err(err) => {
                        let message = err.message();
                        self.flash(message);
                    },
                }
            },
            Mode::TransferSetup => self.submit_transfer_setup(),
            Mode::TransferRename => {
                let name = self.form.service.clone();
                let _ = self.resolve_conflict(ConflictDecision::Rename(name));
            },
            Mode::Locked => {
                self.awaiting = Some(Request::ReopenVault { master: self.form.password.clone() });
                self.pending = Some(Pending::Unlocked);
            },
            _ => {},
        }
        Ok(())
    }

    /// Deletes the selected entry after the user confirmed.
    pub fn confirm_delete(&mut self) -> (r: Result<(), StashError>)
        ensures
            r is Ok,
            delete_confirmed(*old(self), *final(self)),
    {
        if let Some(service) = self.selected_service() {
            proof {
                text::lemma_eq_ignore_ascii_case_equivalence(service@, service@, service@);
                self.lemma_selected_in_range();
                let i = old(self).spec_selected_index()->0;
                assert(crate::vault::same_service(self.vault@.entries[i].service, service@));
            }
            match self.vault.delete(service.as_str()) {
                Ok(()) => {
                    self.awaiting = Some(Request::Save(SaveTarget::Main));
                    self.pending = Some(Pending::Deleted(service));
                },
                Err(err) => {
                    let message = err.message();
                    self.flash(message);
                },
            }
        }
        self.mode = Mode::List;
        self.sync_list_state();
        Ok(())
    }

    /// Selects the entry at position `i` of the vault whose service is
    /// exactly `service`, if the filter shows one.
    #[verifier::loop_isolation(false)]
    fn select_service(&mut self, service: &str)
        ensures
            *final(self) == (App { selected: final(self).selected, ..*old(self) }),
            (exists|k: int| #[trigger] shown_named(old(self).vault@.entries, old(self).filter@, service@, k))
                ==> exists|k: int|
                #[trigger] shown_named(old(self).vault@.entries, old(self).filter@, service@, k)
                    && (forall|j: int|
                    0 <= j < k ==> !#[trigger] shown_named(
                        old(self).vault@.entries,
                        old(self).filter@,
                        service@,
                        j,
                    )) && final(self).selected == spec_filtered(
                    old(self).vault@.entries,
                    old(self).filter@,
                )[k],
            !(exists|k: int| #[trigger] shown_named(old(self).vault@.entries, old(self).filter@, service@, k))
                ==> final(self).selected == old(self).selected,
    {
        let indices = self.filtered_indices();
        let entries = self.vault.entries();
        let ghost es = self.vault@.entries;
        let ghost f = self.filter@;
        let mut k: usize = 0;
        while k < indices.len()
            invariant
                *self == *old(self),
                es == old(self).vault@.entries,
                f == old(self).filter@,
                crate::vault::entry_views(entries@) == es,
                forall|j: int| 0 <= j < k ==> !#[trigger] shown_named(es, f, service@, j),
            decreases indices@.len() - k,
        {
            let i = indices[k];
            if i < entries.len() && text::str_eq(entries[i].service.as_str(), service) {
                proof {
                    assert(entries@[i as int]@ == es[i as int]);
                    assert(shown_named(es, f, service@, k as int));
                }
                self.selected = i;
                return;
            }
            proof {
                if i < entries.len() {
                    assert(entries@[i as int]@ == es[i as int]);
                }
                assert(!shown_named(es, f, service@, k as int));
            }
            k = k + 1;
        }
        proof {
            assert forall|j: int| !#[trigger] shown_named(es, f, service@, j) by {
                if 0 <= j < k {
                }
            }
        }
    }

    /// Hands in the result of the awaited request and carries on from
    /// where the state machine waited.
    pub fn complete(&mut self, outcome: Outcome)
        ensures
            old(self).pending matches Some(Pending::Added(s)) ==> (outcome matches Outcome::Saved(
                Ok(_),
            ) ==> final(self).mode == Mode::List && final(self).form.is_default() && (final(
                self).status matches Some((m, _)) && m@ == "Added "@ + s@)),
            outcome matches Outcome::Opened(Ok(v)) ==> (old(self).pending == Some(
                Pending::Unlocked,
            ) ==> final(self).mode == Mode::List && final(self).vault@ == v@),
            (old(self).pending == Some(Pending::Unlocked) && outcome matches Outcome::Opened(Ok(_)))
                ==> unlock_accepted(*old(self), *final(self)),
            (old(self).pending == Some(Pending::Unlocked) && outcome matches Outcome::Opened(
                Err(_),
            )) ==> final(self).mode == old(self).mode && final(self).vault == old(self).vault
                && final(self).form.password@.len() == 0,
            old(self).pending is None ==> final(self).vault == old(self).vault && final(self).mode
                == old(self).mode,
            (old(self).pending matches Some(Pending::Added(_)) || old(self).pending matches Some(
                Pending::Updated(_),
            ) || old(self).pending matches Some(Pending::Renamed(_)) || old(self).pending
                == Some(Pending::MasterChanged)) ==> {
                &&& final(self).vault == old(self).vault
                &&& final(self).awaiting == old(self).awaiting
                &&& outcome matches Outcome::Saved(Err(e)) ==> final(self).mode == old(
                    self).mode && final(self).form == old(self).form && (final(self).status matches Some(
                    (m, _),
                ) && m@ == e.spec_message())
                &&& !(outcome matches Outcome::Saved(_)) ==> final(self).mode == old(self).mode
                    && final(self).form == old(self).form
            },
            old(self).pending matches Some(Pending::Updated(s)) ==> (outcome matches Outcome::Saved(
                Ok(_),
            ) ==> final(self).mode == Mode::List && final(self).form.is_default() && !final(
                self).revealed && (final(self).status matches Some((m, _)) && m@ == "Updated "@
                + s@)),
            old(self).pending matches Some(Pending::Renamed(to)) ==> (outcome matches Outcome::Saved(
                Ok(_),
            ) ==> final(self).mode == Mode::List && final(self).form.is_default() && (final(
                self).status matches Some((m, _)) && m@ == "Renamed to "@ + to@)),
            old(self).pending == Some(Pending::MasterChanged) ==> (outcome matches Outcome::Saved(
                Ok(_),
            ) ==> final(self).mode == Mode::List && final(self).form.is_default() && (final(
                self).status matches Some((m, _)) && m@ == "Master password updated"@)),
            old(self).pending matches Some(Pending::Deleted(s)) ==> {
                &&& final(self).mode == Mode::List
                &&& final(self).vault == old(self).vault
                &&& (outcome matches Outcome::Saved(Ok(_))) ==> !final(self).revealed && (final(
                    self).status matches Some((m, _)) && m@ == "Deleted "@ + s@)
                &&& outcome matches Outcome::Saved(Err(e)) ==> (final(self).status matches Some(
                    (m, _),
                ) && m@ == e.spec_message())
            },
            old(self).pending matches Some(Pending::Copied(label)) ==> {
                &&& final(self).vault == old(self).vault
                &&& final(self).mode == old(self).mode
                &&& (outcome matches Outcome::Copied(Ok(_))) ==> final(self).clipboard_clear_at
                    == Some(old(self).now.saturating_add(CLIPBOARD_TTL_MS)) && (final(
                    self).status matches Some((m, _)) && m@ == label@ + " copied (clears in 30s)"@)
                &&& outcome matches Outcome::Copied(Err(e)) ==> final(self).clipboard_clear_at
                    == old(self).clipboard_clear_at && (final(self).status matches Some((m, _))
                    && m@ == e.spec_message())
            },
            old(self).pending matches Some(Pending::SavedIngest(mv)) && (!mv || old(self).transfer_kind == Some(TransferKind::ExportMove) || old(self).transfer_kind == Some(
                TransferKind::ExportCopy,
            )) ==> (outcome matches Outcome::Saved(
                Ok(_),
            ) ==> if old(self).transfer_queue@.len() > 0 && old(self).spec_dest() is Some {
                final(self).mode == Mode::TransferConflict && final(self).conflict_incoming
                    == Some(old(self).transfer_queue@[0])
            } else {
                final(self).mode == Mode::List && final(self).transfer_kind is None
            }),
            old(self).pending matches Some(Pending::SavedIngest(_)) ==> (outcome matches Outcome::Saved(
                Err(e),
            ) ==> final(self).mode == Mode::List && final(self).transfer_kind is None),
            old(self).pending matches Some(Pending::SavedIngest(_)) && outcome matches Outcome::Saved(
                Ok(_),
            ) && old(self).transfer_kind == Some(TransferKind::ExportMove) && old(
                self).transfer_queue@.len() == 0 && !old(self).vault@.locked ==> final(self).vault@
                == (VaultView {
                entries: entries_without_all(
                    old(self).vault@.entries,
                    moved_names(old(self).transfer_report),
                ),
                ..old(self).vault@
            }),
            (old(self).pending matches Some(Pending::SavedOverwrite(_)) || old(self).pending matches Some(
                Pending::SavedRename(_, _),
            )) ==> (outcome matches Outcome::Saved(Ok(_)) ==> if old(self).transfer_queue@.len()
                > 1 && old(self).spec_dest() is Some {
                final(self).mode == Mode::TransferConflict && final(self).conflict_incoming
                    == Some(old(self).transfer_queue@[1])
            } else {
                final(self).mode == Mode::List && final(self).transfer_kind is None
            }),
            old(self).pending matches Some(Pending::ProbedDest(path)) ==> (outcome matches Outcome::Probed(
                true,
            ) ==> (final(self).awaiting matches Some(Request::OpenVault { path: p, master })
                && p@ == path@ && master@ == old(self).form.password@) && final(self).pending
                == Some(Pending::OpenedExportDest)),
            old(self).pending matches Some(Pending::ProbedDest(_)) ==> (outcome matches Outcome::Probed(
                false,
            ) && old(self).form.password@ != old(self).form.confirm@ ==> final(self).transfer_dest
                == old(self).transfer_dest && (final(self).status matches Some((m, _)) && m@
                == "Master passwords do not match"@)),
            old(self).pending matches Some(Pending::ProbedDest(path)) ==> (outcome matches Outcome::Probed(
                false,
            ) && old(self).form.password@ == old(self).form.confirm@ && final(self).pending
                == Some(Pending::SavedNewExportDest) ==> (final(self).transfer_dest matches Some(d)
                && d@.path == path@ && d@.entries.len() == 0 && !d@.locked && d@.key
                == crate::encryption::spec_derive_key(old(self).form.password@, d@.salt))
                && final(self).awaiting == Some(Request::Save(SaveTarget::TransferDest))),
            old(self).pending == Some(Pending::OpenedExportDest) && (old(self).transfer_kind == Some(
                TransferKind::ExportCopy,
            ) || old(self).transfer_kind == Some(TransferKind::ExportMove)) ==> final(self).vault
                == old(self).vault,
            old(self).pending == Some(Pending::OpenedExportDest) && (old(self).transfer_kind == Some(
                TransferKind::ExportCopy,
            ) || old(self).transfer_kind == Some(TransferKind::ExportMove)) ==> {
                &&& outcome matches Outcome::Opened(Ok(dest)) ==> ((forall|k: int|
                    0 <= k < old(self).spec_transfer_names().len() ==> crate::vault::has_service(
                        old(self).vault@.entries,
                        #[trigger] old(self).spec_transfer_names()[k],
                    )) ==> final(self).awaiting == Some(Request::Save(SaveTarget::TransferDest))
                    && final(self).pending == Some(
                    Pending::SavedIngest(old(self).transfer_kind == Some(TransferKind::ExportMove)),
                ) && (final(self).transfer_dest matches Some(d) && d@.path == dest@.path))
                &&& outcome matches Outcome::Opened(Err(e)) ==> final(self).transfer_dest == old(
                    self).transfer_dest && (final(self).status matches Some((m, _)) && m@
                    == e.spec_message())
            },
            old(self).pending == Some(Pending::SavedNewExportDest) && (outcome matches Outcome::Saved(
                Ok(_),
            )) && (old(self).transfer_kind == Some(TransferKind::ExportCopy) || old(
                self).transfer_kind == Some(TransferKind::ExportMove)) && old(
                self).transfer_dest is Some && (forall|k: int|
                0 <= k < old(self).spec_transfer_names().len() ==> crate::vault::has_service(
                    old(self).vault@.entries,
                    #[trigger] old(self).spec_transfer_names()[k],
                )) ==> final(self).vault == old(self).vault && final(self).awaiting == Some(
                Request::Save(SaveTarget::TransferDest),
            ) && final(self).pending == Some(
                Pending::SavedIngest(old(self).transfer_kind == Some(TransferKind::ExportMove)),
            ) && (final(self).transfer_dest matches Some(d) && d@.path == old(
                self).transfer_dest->0@.path && d@.salt == old(self).transfer_dest->0@.salt && d@.key
                == old(self).transfer_dest->0@.key),
            old(self).pending == Some(Pending::SavedNewExportDest) ==> (outcome matches Outcome::Saved(
                Err(e),
            ) ==> final(self).vault == old(self).vault && (final(self).status matches Some((m, _))
                && m@ == e.spec_message())),
            old(self).pending matches Some(Pending::Added(s)) ==> (outcome matches Outcome::Saved(
                Ok(_),
            ) ==> {
                let idx = spec_filtered(old(self).vault@.entries, old(self).filter@);
                &&& (exists|k: int| #[trigger] shown_named(old(self).vault@.entries, old(self).filter@, s@, k))
                    ==> exists|k: int|
                    #[trigger] shown_named(old(self).vault@.entries, old(self).filter@, s@, k) && (
                    forall|j: int|
                        0 <= j < k ==> !#[trigger] shown_named(
                            old(self).vault@.entries,
                            old(self).filter@,
                            s@,
                            j,
                        )) && final(self).selected == clamp_selection(idx[k], idx.len() as int)
                &&& !(exists|k: int| #[trigger] shown_named(old(self).vault@.entries, old(self).filter@, s@, k))
                    ==> final(self).selected == clamp_selection(old(self).selected as int, idx.len() as int)
            }),
            old(self).pending == Some(Pending::OpenedImportSource) ==> (outcome matches Outcome::Opened(
                Ok(_),
            ) && old(self).spec_dest() is Some ==> final(self).awaiting == Some(
                Request::Save(old(self).dest_target_spec()),
            ) && final(self).pending == Some(Pending::SavedIngest(false))),
            old(self).pending == Some(Pending::OpenedImportSource) ==> (outcome matches Outcome::Opened(
                Err(e),
            ) ==> final(self).vault == old(self).vault && (final(self).status matches Some((m, _))
                && m@ == e.spec_message())),
    {
        proof {
            reveal_strlit("Master password updated");
            reveal_strlit("Master passwords do not match");
        }
        let pending = self.pending.take();
        match pending {
            None => {},
            Some(Pending::Added(service)) => {
                if let Outcome::Saved(result) = outcome {
                    match result {
                        Ok(()) => {
                            self.form = FormState::new();
                            self.mode = Mode::List;
                            self.select_service(service.as_str());
                            self.sync_list_state();
                            self.flash(join2("Added ", service.as_str()));
                        },
                        Err(err) => {
                            let message = err.message();
                            self.flash(message);
                        },
                    }
                }
            },
            Some(Pending::Updated(service)) => {
                if let Outcome::Saved(result) = outcome {
                    match result {
                        Ok(()) => {
                            self.form = FormState::new();
                            self.mode = Mode::List;
                            self.revealed = false;
                            self.flash(join2("Updated ", service.as_str()));
                        },
                        Err(err) => {
                            let message = err.message();
                            self.flash(message);
                        },
                    }
                }
            },
            Some(Pending::Renamed(to)) => {
                if let Outcome::Saved(result) = outcome {
                    match result {
                        Ok(()) => {
                            self.form = FormState::new();
                            self.mode = Mode::List;
                            self.select_service(to.as_str());
                            self.sync_list_state();
                            self.flash(join2("Renamed to ", to.as_str()));
                        },
                        Err(err) => {
                            let message = err.message();
                            self.flash(message);
                        },
                    }
                }
            },
            Some(Pending::MasterChanged) => {
                if let Outcome::Saved(result) = outcome {
                    match result {
                        Ok(()) => {
                            self.form = FormState::new();
                            self.mode = Mode::List;
                            self.flash(text::to_owned("Master password updated"));
                        },
                        Err(err) => {
                            let message = err.message();
                            self.flash(message);
                        },
                    }
                }
            },
            Some(Pending::Deleted(service)) => {
                if let Outcome::Saved(result) = outcome {
                    match result {
                        Ok(()) => {
                            self.flash(join2("Deleted ", service.as_str()));
                            self.revealed = false;
                        },
                        Err(err) => {
                            let message = err.message();
                            self.flash(message);
                        },
                    }
                }
                self.mode = Mode::List;
                self.sync_list_state();
            },
            Some(Pending::Copied(label)) => {
                if let Outcome::Copied(result) = outcome {
                    match result {
                        Ok(()) => {
                            self.clipboard_clear_at = Some(
                                self.now.saturating_add(CLIPBOARD_TTL_MS),
                            );
                            let mut message = text::to_owned(label.as_str());
                            message.append(" copied (clears in 30s)");
                            self.flash(message);
                        },
                        Err(err) => {
                            let message = err.message();
                            self.flash(message);
                        },
                    }
                }
            },
            Some(Pending::ProbedDest(path)) => {
                if let Outcome::Probed(exists) = outcome {
                    if exists {
                        self.awaiting = Some(
                            Request::OpenVault { path, master: self.form.password.clone() },
                        );
                        self.pending = Some(Pending::OpenedExportDest);
                    } else if !text::str_eq(
                        self.form.password.as_str(),
                        self.form.confirm.as_str(),
                    ) {
                        self.flash(text::to_owned("Master passwords do not match"));
                    } else {
                        match Vault::create(path.as_str(), self.form.password.as_str(), false) {
                            Ok(dest) => {
                                self.transfer_dest = Some(dest);
                                self.awaiting = Some(Request::Save(SaveTarget::TransferDest));
                                self.pending = Some(Pending::SavedNewExportDest);
                            },
                            Err(err) => {
                                let message = err.message();
                                self.flash(message);
                            },
                        }
                    }
                }
            },
            Some(Pending::OpenedExportDest) => {
                proof {
                    assert(self.spec_transfer_names() == old(self).spec_transfer_names());
                }
                if let Outcome::Opened(result) = outcome {
                    match result {
                        Ok(dest) => self.continue_export(dest),
                        Err(err) => {
                            let message = err.message();
                            self.flash(message);
                        },
                    }
                }
            },
            Some(Pending::SavedNewExportDest) => {
                proof {
                    assert(self.spec_transfer_names() == old(self).spec_transfer_names());
                }
                if let Outcome::Saved(result) = outcome {
                    let dest = self.transfer_dest.take();
                    match result {
                        Ok(()) => match dest {
                            Some(d) => self.continue_export(d),
                            None => {},
                        },
                        Err(err) => {
                            let message = err.message();
                            self.flash(message);
                        },
                    }
                }
            },
            Some(Pending::OpenedImportSource) => {
                if let Outcome::Opened(result) = outcome {
                    match result {
                        Ok(source) => {
                            let incoming = source.into_entries();
                            self.start_ingest(incoming, false);
                        },
                        Err(err) => {
                            let message = err.message();
                            self.flash(message);
                        },
                    }
                }
            },
            Some(Pending::SavedIngest(move_after)) => {
                if let Outcome::Saved(result) = outcome {
                    match result {
                        Ok(()) => {
                            if move_after {
                                self.transfer_kind = Some(TransferKind::ExportMove);
                            }
                            self.form = FormState::new();
                            self.next_conflict_or_finish();
                        },
                        Err(err) => {
                            let message = err.message();
                            self.flash(message);
                            self.clear_transfer();
                            self.mode = Mode::List;
                        },
                    }
                }
            },
            Some(Pending::SavedOverwrite(service)) => {
                if let Outcome::Saved(result) = outcome {
                    match result {
                        Ok(()) => {
                            self.transfer_report.overwritten.push(service);
                            if self.transfer_queue.len() > 0 {
                                self.transfer_queue.remove(0);
                            }
                            self.next_conflict_or_finish();
                        },
                        Err(err) => {
                            let message = err.message();
                            self.flash(message);
                            self.finish_transfer();
                        },
                    }
                }
            },
            Some(Pending::SavedRename(from, to)) => {
                if let Outcome::Saved(result) = outcome {
                    match result {
                        Ok(()) => {
                            self.transfer_report.renamed.push((from, to));
                            if self.transfer_queue.len() > 0 {
                                self.transfer_queue.remove(0);
                            }
                            self.next_conflict_or_finish();
                        },
                        Err(err) => {
                            let message = err.message();
                            self.flash(message);
                            self.mode = Mode::TransferRename;
                        },
                    }
                }
            },
            Some(Pending::Unlocked) => {
                if let Outcome::Opened(result) = outcome {
                    match result {
                        Ok(v) => {
                            let _ = self.vault.unlock(Ok(v));
                            self.form = FormState::new();
                            self.mode = Mode::List;
                            self.idle_deadline = self.now.saturating_add(self.idle_timeout);
                            self.sync_list_state();
                            self.flash(text::to_owned("Unlocked"));
                        },
                        Err(err) => {
                            self.form.password = String::new();
                            let message = err.message();
                            self.flash(message);
                        },
                    }
                }
            },
        }
    }
}

/// Stepping the selection down and then up returns to the same row.
pub proof fn law_select_prev_undoes_next(a: int, n: int)
    requires
        0 <= a < n,
    ensures
        (((a + 1) % n) + n - 1) % n == a,
{
    lemma_wrap_next(a, n);
    vstd::arithmetic::div_mod::lemma_small_mod(a as nat, n as nat);
    lemma_wrap_prev((a + 1) % n, n);
    vstd::arithmetic::div_mod::lemma_mod_bound(a + 1, n);
    vstd::arithmetic::div_mod::lemma_small_mod(((a + 1) % n) as nat, n as nat);
}

/// Moving the form's focus forward (`next_field`) and then back
/// (`prev_field`) returns to the same field, in every mode with a form.
pub proof fn law_prev_field_undoes_next_field(
    field: usize,
    mode: Mode,
    transfer_kind: Option<TransferKind>,
)
    requires
        field < spec_field_count(mode, transfer_kind),
    ensures
        ({
            let n = spec_field_count(mode, transfer_kind) as int;
            (((field + 1) % n) + n - 1) % n == field
        }),
{
    law_select_prev_undoes_next(field as int, spec_field_count(mode, transfer_kind) as int);
}

/// Marking a service that is not marked and then unmarking it leaves the
/// marks as they were.
pub proof fn law_toggle_mark_twice(marked: Seq<String>, s: String)
    requires
        first_marked(marked, s@) is None,
    ensures
        first_marked(marked.push(s), s@) == Some(marked.len() as int),
        marked.push(s).remove(marked.len() as int) == marked,
{
    let m2 = marked.push(s);
    text::lemma_eq_ignore_ascii_case_equivalence(s@, s@, s@);
    assert forall|j: int| 0 <= j < marked.len() implies !text::eq_ignore_ascii_case(
        #[trigger] m2[j]@,
        s@,
    ) by {
        assert(m2[j] == marked[j]);
        if text::eq_ignore_ascii_case(marked[j]@, s@) {
            assert(exists|k: int|
                0 <= k < marked.len() && text::eq_ignore_ascii_case(#[trigger] marked[k]@, s@));
        }
    }
    lemma_first_marked_at(m2, s@, marked.len() as int);
    assert(m2.remove(marked.len() as int) =~= marked);
}

/// Starting a transfer loses no incoming entry and decides none by itself:
/// each one is either copied at once (its service is free) or waits as a
/// conflict for the user (its service is taken, even when the two entries
/// are identical), never both.
pub proof fn law_ingest_partitions_incoming(dest: Seq<EntryView>, incoming: Seq<EntryView>)
    ensures
        ingest_ready(dest, incoming).len() + ingest_conflicts(dest, incoming).len()
            == incoming.len(),
        forall|e: EntryView|
            #[trigger] incoming.contains(e) ==> (crate::vault::has_service(dest, e.service)
                ==> ingest_conflicts(dest, incoming).contains(e) && !ingest_ready(
                dest,
                incoming,
            ).contains(e)) && (!crate::vault::has_service(dest, e.service) ==> ingest_ready(
                dest,
                incoming,
            ).contains(e) && !ingest_conflicts(dest, incoming).contains(e)),
    decreases incoming.len(),
{
    let p = |e: EntryView| crate::vault::has_service(dest, e.service);
    let q = |e: EntryView| !crate::vault::has_service(dest, e.service);
    if incoming.len() > 0 {
        let init = incoming.drop_last();
        let x = incoming.last();
        law_ingest_partitions_incoming(dest, init);
        assert(incoming =~= init.push(x));
        init.lemma_filter_push(x, p);
        init.lemma_filter_push(x, q);
    } else {
        assert(ingest_ready(dest, incoming) =~= Seq::<EntryView>::empty());
        assert(ingest_conflicts(dest, incoming) =~= Seq::<EntryView>::empty());
    }
    assert forall|e: EntryView| #[trigger] incoming.contains(e) implies (crate::vault::has_service(
        dest,
        e.service,
    ) ==> ingest_conflicts(dest, incoming).contains(e) && !ingest_ready(dest, incoming).contains(
        e,
    )) && (!crate::vault::has_service(dest, e.service) ==> ingest_ready(dest, incoming).contains(
        e,
    ) && !ingest_conflicts(dest, incoming).contains(e)) by {
        let k = choose|k: int| 0 <= k < incoming.len() && incoming[k] == e;
        if p(e) {
            incoming.lemma_filter_contains(p, k);
            if ingest_ready(dest, incoming).contains(e) {
                let j = choose|j: int|
                    0 <= j < ingest_ready(dest, incoming).len() && ingest_ready(dest, incoming)[j]
                        == e;
                incoming.lemma_filter_pred(q, j);
            }
        } else {
            incoming.lemma_filter_contains(q, k);
            if ingest_conflicts(dest, incoming).contains(e) {
                let j = choose|j: int|
                    0 <= j < ingest_conflicts(dest, incoming).len() && ingest_conflicts(
                        dest,
                        incoming,
                    )[j] == e;
                incoming.lemma_filter_pred(p, j);
            }
        }
    }
}

/// Deleting a service that no entry is stored under keeps every entry.
proof fn lemma_entries_without_absent(entries: Seq<EntryView>, service: Seq<char>)
    requires
        !crate::vault::has_service(entries, service),
    ensures
        crate::vault::entries_without(entries, service) == entries,
    decreases entries.len(),
{
    if entries.len() > 0 {
        let init = entries.drop_last();
        assert(entries =~= init.push(entries.last()));
        assert(!crate::vault::has_service(init, service)) by {
            if crate::vault::has_service(init, service) {
                let w = choose|w: int|
                    0 <= w < init.len() && crate::vault::same_service(
                        #[trigger] init[w].service,
                        service,
                    );
                assert(entries[w] == init[w]);
            }
        }
        lemma_entries_without_absent(init, service);
        init.lemma_filter_push(entries.last(), crate::vault::kept_by_delete(service));
        assert(!crate::vault::same_service(entries[entries.len() - 1].service, service));
    } else {
        assert(crate::vault::entries_without(entries, service) =~= entries);
    }
}

/// What deleting `service` keeps: exactly the entries stored under another
/// service.
proof fn lemma_entries_without_contains(entries: Seq<EntryView>, service: Seq<char>, e: EntryView)
    ensures
        crate::vault::entries_without(entries, service).contains(e) <==> entries.contains(e)
            && !crate::vault::same_service(e.service, service),
{
    let p = crate::vault::kept_by_delete(service);
    let f = crate::vault::entries_without(entries, service);
    if f.contains(e) {
        entries.lemma_filter_contains_rev(p, e);
        let j = choose|j: int| 0 <= j < f.len() && f[j] == e;
        entries.lemma_filter_pred(p, j);
    }
    if entries.contains(e) && !crate::vault::same_service(e.service, service) {
        let k = choose|k: int| 0 <= k < entries.len() && entries[k] == e;
        entries.lemma_filter_contains(p, k);
    }
}

/// A move takes out exactly what it carried over: after deleting each of
/// `names` in turn, no entry is stored under any of them, every entry stored
/// under none of them is still there, and nothing new appears.
pub proof fn law_move_deletes_exactly_moved(entries: Seq<EntryView>, names: Seq<Seq<char>>)
    ensures
        forall|k: int|
            0 <= k < names.len() ==> !crate::vault::has_service(
                entries_without_all(entries, names),
                #[trigger] names[k],
            ),
        forall|e: EntryView|
            #[trigger] entries_without_all(entries, names).contains(e) <==> entries.contains(e)
                && forall|k: int|
                0 <= k < names.len() ==> !crate::vault::same_service(e.service, #[trigger] names[k]),
    decreases names.len(),
{
    if names.len() > 0 {
        let init = names.drop_last();
        let last = names.last();
        let prev = entries_without_all(entries, init);
        let cur = entries_without_all(entries, names);
        law_move_deletes_exactly_moved(entries, init);
        assert(cur == crate::vault::entries_without(prev, last));
        assert forall|e: EntryView| #[trigger] cur.contains(e) <==> entries.contains(e) && forall|
            k: int,
        | 0 <= k < names.len() ==> !crate::vault::same_service(e.service, #[trigger] names[k]) by {
            lemma_entries_without_contains(prev, last, e);
            if entries.contains(e) && forall|k: int|
                0 <= k < names.len() ==> !crate::vault::same_service(e.service, #[trigger] names[k]) {
                assert forall|k: int| 0 <= k < init.len() implies !crate::vault::same_service(
                    e.service,
                    #[trigger] init[k],
                ) by {
                    assert(init[k] == names[k]);
                }
                assert(!crate::vault::same_service(e.service, names[names.len() - 1]));
            }
            if cur.contains(e) {
                assert forall|k: int| 0 <= k < names.len() implies !crate::vault::same_service(
                    e.service,
                    #[trigger] names[k],
                ) by {
                    if k < names.len() - 1 {
                        assert(init[k] == names[k]);
                    }
                }
            }
        }
        assert forall|k: int| 0 <= k < names.len() implies !crate::vault::has_service(
            cur,
            #[trigger] names[k],
        ) by {
            if crate::vault::has_service(cur, names[k]) {
                let w = choose|w: int|
                    0 <= w < cur.len() && crate::vault::same_service(
                        #[trigger] cur[w].service,
                        names[k],
                    );
                assert(cur.contains(cur[w]));
            }
        }
    } else {
        assert forall|e: EntryView| #[trigger] entries_without_all(entries, names).contains(e)
            <==> entries.contains(e) && forall|k: int|
            0 <= k < names.len() ==> !crate::vault::same_service(e.service, #[trigger] names[k]) by {}
    }
}

/// Skipping a conflict keeps the destination as it was and counts the
/// incoming service as skipped; on an import, skipping the last conflict
/// leaves this vault as it was.
pub proof fn law_skip_keeps_destination(before: App, after: App)
    requires
        conflict_skipped(before, after),
        before.transfer_queue@.len() > 0,
    ensures
        before.transfer_queue@.len() > 1 && before.spec_dest() is Some ==> {
            &&& after.spec_dest() == before.spec_dest()
            &&& after.transfer_report.skipped@.len() == before.transfer_report.skipped@.len() + 1
            &&& after.transfer_report.skipped@.last()@ == before.transfer_queue@[0]@.service
        },
        before.transfer_kind == Some(TransferKind::Import) && before.transfer_queue@.len() == 1
            ==> after.vault == before.vault,
{
    if before.transfer_queue@.len() > 1 && before.spec_dest() is Some {
        let a = crate::vault::string_views(after.transfer_report.skipped@);
        let b = crate::vault::string_views(before.transfer_report.skipped@);
        assert(a.len() == after.transfer_report.skipped@.len());
        assert(b.len() == before.transfer_report.skipped@.len());
        assert(a[a.len() - 1] == after.transfer_report.skipped@.last()@);
    }
}

/// Overwriting on a conflict puts the incoming entry where the destination
/// kept the entry of that service: a lookup of the service then finds the
/// incoming entry, no entry is added, and every other entry stays where it
/// was. A save of the destination is requested.
pub proof fn law_overwrite_replaces(before: App, after: App)
    requires
        conflict_overwritten(before, after),
        before.transfer_queue@.len() > 0,
        before.spec_dest() is Some,
        crate::vault::has_service(
            before.spec_dest()->0.entries,
            before.transfer_queue@[0]@.service,
        ),
    ensures
        ({
            let d = before.spec_dest()->0;
            let inc = before.transfer_queue@[0]@;
            let i = crate::vault::spec_position(d.entries, inc.service)->0;
            &&& after.spec_dest() is Some
            &&& after.spec_dest()->0.entries.len() == d.entries.len()
            &&& spec_get(after.spec_dest()->0.entries, inc.service) == Some(inc)
            &&& forall|j: int|
                0 <= j < d.entries.len() && j != i ==> after.spec_dest()->0.entries[j]
                    == d.entries[j]
            &&& after.awaiting == Some(Request::Save(before.dest_target_spec()))
        }),
{
    let d = before.spec_dest()->0;
    let inc = before.transfer_queue@[0]@;
    crate::vault::lemma_has_service_first_match(d.entries, inc.service);
    let i = crate::vault::spec_position(d.entries, inc.service)->0;
    let a = d.entries.update(i, inc);
    assert(after.spec_dest()->0.entries == a);
    text::lemma_eq_ignore_ascii_case_equivalence(inc.service, inc.service, inc.service);
    assert forall|j: int| 0 <= j < i implies !crate::vault::same_service(
        #[trigger] a[j].service,
        inc.service,
    ) by {
        assert(a[j] == d.entries[j]);
    }
    assert(crate::vault::is_first_match(a, inc.service, i));
    crate::vault::lemma_first_match_unique(a, inc.service, i);
}

/// An export started for a copy never takes entries out of this vault, and
/// one started for a move does: the kind of transfer that `E` and `M` start
/// decides whether the source keeps what was carried over.
pub proof fn law_export_kind(after: App, move_entries: bool)
    requires
        export_started(after, move_entries),
    ensures
        after.mode == Mode::TransferSetup,
        !move_entries <==> after.transfer_kind != Some(TransferKind::ExportMove),
        !move_entries ==> after.transfer_kind == Some(TransferKind::ExportCopy),
{
}

/// Field number `i` of a form is the `i`-th field the form shows, and the
/// form has as many fields as it shows.
pub proof fn law_form_layout(mode: Mode, transfer_kind: Option<TransferKind>)
    ensures
        spec_field_count(mode, transfer_kind) == form_layout(mode, transfer_kind).len(),
        forall|i: usize|
            i < form_layout(mode, transfer_kind).len() ==> spec_active_field(mode, i)
                == #[trigger] form_layout(mode, transfer_kind)[i as int],
{
    assert forall|i: usize| i < form_layout(mode, transfer_kind).len() implies spec_active_field(
        mode,
        i,
    ) == #[trigger] form_layout(mode, transfer_kind)[i as int] by {
        if i == 0 {
        } else if i == 1 {
        } else if i == 2 {
        } else if i == 3 {
        } else {
        }
    }
}

/// The forms' fields in order: adding asks for service, username,
/// password, URL and notes; editing for username, password, URL and notes;
/// changing the master password for the new password and its confirmation.
pub proof fn law_form_fields(transfer_kind: Option<TransferKind>)
    ensures
        spec_field_count(Mode::Add, transfer_kind) == 5,
        spec_active_field(Mode::Add, 0) == FormField::Service,
        spec_active_field(Mode::Add, 1) == FormField::Username,
        spec_active_field(Mode::Add, 2) == FormField::Password,
        spec_active_field(Mode::Add, 3) == FormField::Url,
        spec_active_field(Mode::Add, 4) == FormField::Notes,
        spec_field_count(Mode::Edit, transfer_kind) == 4,
        spec_active_field(Mode::Edit, 0) == FormField::Username,
        spec_active_field(Mode::Edit, 1) == FormField::Password,
        spec_active_field(Mode::Edit, 2) == FormField::Url,
        spec_active_field(Mode::Edit, 3) == FormField::Notes,
        spec_field_count(Mode::ChangeMaster, transfer_kind) == 2,
        spec_active_field(Mode::ChangeMaster, 0) == FormField::Password,
        spec_active_field(Mode::ChangeMaster, 1) == FormField::Confirm,
{
}

/// After a successful unlock the vault stays open: a tick at any time
/// before the idle timeout has passed again finds the idle timer not run
/// out, so it leaves the mode as it is.
pub proof fn law_unlock_restarts_idle_timer(before: App, after: App, t: u64)
    requires
        unlock_accepted(before, after),
        before.now <= t,
        t < before.now + before.idle_timeout,
        t < u64::MAX,
    ensures
        !idle_expired(after, t),
{
}

/// Submitting the edit form with the password left blank keeps the entry's
/// old password; a lookup of the service finds the entry with the form's
/// username, URL and notes, trimmed.
pub proof fn law_edit_blank_password_keeps_old(before: App, after: App)
    requires
        edit_submitted(before, after),
        !before.vault@.locked,
        text::spec_trim(before.form.username@).len() > 0,
        crate::vault::has_service(before.vault@.entries, before.form.service@),
        before.form.password@.len() == 0,
    ensures
        ({
            let svc = before.form.service@;
            let old_entry = spec_get(before.vault@.entries, svc)->0;
            &&& spec_get(after.vault@.entries, svc) is Some
            &&& spec_get(after.vault@.entries, svc)->0.password == old_entry.password
            &&& spec_get(after.vault@.entries, svc)->0.username == text::spec_trim(
                before.form.username@,
            )
            &&& spec_get(after.vault@.entries, svc)->0.url == text::spec_trim(before.form.url@)
            &&& spec_get(after.vault@.entries, svc)->0.notes == text::spec_trim(before.form.notes@)
            &&& after.vault@.entries.len() == before.vault@.entries.len()
        }),
{
    let entries = before.vault@.entries;
    let svc = before.form.service@;
    crate::vault::lemma_has_service_first_match(entries, svc);
    let i = crate::vault::spec_position(entries, svc)->0;
    crate::vault::law_get_after_update(
        entries,
        svc,
        before.form.username@,
        entries[i].password,
        Some(before.form.url@),
        Some(before.form.notes@),
    );
}

} // verus!
