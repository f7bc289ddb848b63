//! The in-memory vault: entries keyed by service name, compared without
//! regard to ASCII case, with the key that seals them.
use vstd::prelude::*;

use crate::encryption::{
    self, aes256gcm_open, aes256gcm_seal, spec_derive_key, KEY_LEN, NONCE_LEN, P_MAX, SALT_LEN,
};
use crate::error::{EncryptionError, StashError};
use crate::persistence::VaultFile;
use crate::text::{self, eq_ignore_ascii_case, spec_trim};

verus! {

/// The abstract value of an entry.
pub struct EntryView {
    pub service: Seq<char>,
    pub username: Seq<char>,
    pub password: Seq<char>,
    pub url: Seq<char>,
    pub notes: Seq<char>,
}

/// One stored credential.
#[derive(PartialEq, Eq)]
pub struct PasswordEntry {
    pub service: String,
    pub username: String,
    pub password: String,
    pub url: String,
    pub notes: String,
}

impl View for PasswordEntry {
    type V = EntryView;

    open spec fn view(&self) -> EntryView {
        EntryView {
            service: self.service@,
            username: self.username@,
            password: self.password@,
            url: self.url@,
            notes: self.notes@,
        }
    }
}

/// A line `<label><old> -> <new>`.
pub open spec fn change_line(label: Seq<char>, old: Seq<char>, new: Seq<char>) -> Seq<char> {
    label + old + " -> "@ + new
}

/// The lines that describe how `incoming` differs from `existing`: one per
/// differing field, the password only named, never shown.
pub open spec fn spec_diff_lines(existing: EntryView, incoming: EntryView) -> Seq<Seq<char>> {
    let l1: Seq<Seq<char>> = if existing.username != incoming.username {
        seq![change_line("username: "@, existing.username, incoming.username)]
    } else {
        seq![]
    };
    let l2: Seq<Seq<char>> = if existing.password != incoming.password {
        seq!["password differs"@]
    } else {
        seq![]
    };
    let l3: Seq<Seq<char>> = if existing.url != incoming.url {
        seq![change_line("url: "@, existing.url, incoming.url)]
    } else {
        seq![]
    };
    let l4: Seq<Seq<char>> = if existing.notes != incoming.notes {
        seq![change_line("notes: "@, existing.notes, incoming.notes)]
    } else {
        seq![]
    };
    l1 + l2 + l3 + l4
}

/// A line `<label><old> -> <new>`.
fn make_change_line(label: &str, old: &str, new: &str) -> (r: String)
    ensures
        r@ == change_line(label@, old@, new@),
{
    let mut line = text::to_owned(label);
    line.append(old);
    line.append(" -> ");
    line.append(new);
    line
}

/// The views of a list of strings.
pub open spec fn string_views(v: Seq<String>) -> Seq<Seq<char>> {
    v.map_values(|s: String| s@)
}

impl PasswordEntry {
    /// How `incoming` differs from this entry, one line per field.
    pub fn diff_lines(&self, incoming: &PasswordEntry) -> (r: Vec<String>)
        ensures
            string_views(r@) == spec_diff_lines(self@, incoming@),
    {
        let mut lines: Vec<String> = Vec::new();
        let ghost a = self@;
        let ghost b = incoming@;
        if !text::str_eq(self.username.as_str(), incoming.username.as_str()) {
            lines.push(make_change_line("username: ", self.username.as_str(), incoming.username.as_str()));
        }
        let ghost s1 = string_views(lines@);
        if !text::str_eq(self.password.as_str(), incoming.password.as_str()) {
            lines.push(text::to_owned("password differs"));
        }
        let ghost s2 = string_views(lines@);
        if !text::str_eq(self.url.as_str(), incoming.url.as_str()) {
            lines.push(make_change_line("url: ", self.url.as_str(), incoming.url.as_str()));
        }
        let ghost s3 = string_views(lines@);
        if !text::str_eq(self.notes.as_str(), incoming.notes.as_str()) {
            lines.push(make_change_line("notes: ", self.notes.as_str(), incoming.notes.as_str()));
        }
        proof {
            assert(string_views(lines@) =~= spec_diff_lines(a, b));
        }
        lines
    }

    /// Whether the entry matches a search filter.
    pub fn matches(&self, filter: &str) -> (r: bool)
        ensures
            r == entry_matches(self@, filter@),
    {
        text::contains_ignoring_ascii_case(self.service.as_str(), filter)
            || text::contains_ignoring_ascii_case(self.username.as_str(), filter)
            || text::contains_ignoring_ascii_case(self.url.as_str(), filter)
    }
}

impl Clone for PasswordEntry {
    fn clone(&self) -> (res: Self)
        ensures
            res == *self,
    {
        PasswordEntry {
            service: self.service.clone(),
            username: self.username.clone(),
            password: self.password.clone(),
            url: self.url.clone(),
            notes: self.notes.clone(),
        }
    }
}

/// Whether two service names name the same service.
pub open spec fn same_service(a: Seq<char>, b: Seq<char>) -> bool {
    eq_ignore_ascii_case(a, b)
}

/// The views of a sequence of entries.
pub open spec fn entry_views(entries: Seq<PasswordEntry>) -> Seq<EntryView> {
    entries.map_values(|e: PasswordEntry| e@)
}

/// Whether some entry is stored under `service`.
pub open spec fn has_service(entries: Seq<EntryView>, service: Seq<char>) -> bool {
    exists|i: int| 0 <= i < entries.len() && same_service(#[trigger] entries[i].service, service)
}

/// Whether `i` is the first entry stored under `service`.
pub open spec fn is_first_match(entries: Seq<EntryView>, service: Seq<char>, i: int) -> bool {
    &&& 0 <= i < entries.len()
    &&& same_service(entries[i].service, service)
    &&& forall|j: int| 0 <= j < i ==> !same_service(#[trigger] entries[j].service, service)
}

/// The position of the first entry stored under `service`.
pub open spec fn spec_position(entries: Seq<EntryView>, service: Seq<char>) -> Option<int> {
    if has_service(entries, service) {
        Some(choose|i: int| is_first_match(entries, service, i))
    } else {
        None
    }
}

/// The entry that a lookup of `service` finds: the first one stored under it.
pub open spec fn spec_get(entries: Seq<EntryView>, service: Seq<char>) -> Option<EntryView> {
    match spec_position(entries, service) {
        Some(i) => Some(entries[i]),
        None => None,
    }
}

/// No two entries are stored under the same service.
pub open spec fn unique_services(entries: Seq<EntryView>) -> bool {
    forall|i: int, j: int|
        0 <= i < entries.len() && 0 <= j < entries.len() && i != j ==> !same_service(
            #[trigger] entries[i].service,
            #[trigger] entries[j].service,
        )
}

/// The entry that `add_full` stores.
pub open spec fn new_entry(
    service: Seq<char>,
    username: Seq<char>,
    password: Seq<char>,
    url: Seq<char>,
    notes: Seq<char>,
) -> EntryView {
    EntryView {
        service: spec_trim(service),
        username: spec_trim(username),
        password,
        url: spec_trim(url),
        notes: spec_trim(notes),
    }
}


/// Whether adding (`service`, `username`, `password`) passes every check of
/// `add_full`.
pub open spec fn add_accepted(
    entries: Seq<EntryView>,
    service: Seq<char>,
    username: Seq<char>,
    password: Seq<char>,
) -> bool {
    &&& spec_trim(service).len() > 0
    &&& spec_trim(username).len() > 0
    &&& password.len() > 0
    &&& !has_service(entries, spec_trim(service))
}

/// The entries after an update of the entry at `i`.
pub open spec fn updated_entries(
    entries: Seq<EntryView>,
    i: int,
    username: Seq<char>,
    password: Seq<char>,
    url: Option<Seq<char>>,
    notes: Option<Seq<char>>,
) -> Seq<EntryView> {
    let old_entry = entries[i];
    entries.update(
        i,
        EntryView {
            service: old_entry.service,
            username: spec_trim(username),
            password,
            url: match url {
                Some(u) => spec_trim(u),
                None => old_entry.url,
            },
            notes: match notes {
                Some(n) => spec_trim(n),
                None => old_entry.notes,
            },
        },
    )
}

/// Whether an entry is stored under some other service than `service`.
pub open spec fn kept_by_delete(service: Seq<char>) -> spec_fn(EntryView) -> bool {
    |e: EntryView| !same_service(e.service, service)
}

/// The entries that remain after deleting `service`.
pub open spec fn entries_without(entries: Seq<EntryView>, service: Seq<char>) -> Seq<EntryView> {
    entries.filter(kept_by_delete(service))
}

/// Whether an entry other than the one at `i` is stored under `name`.
pub open spec fn taken_by_other(entries: Seq<EntryView>, i: int, name: Seq<char>) -> bool {
    exists|k: int| 0 <= k < entries.len() && k != i && same_service(#[trigger] entries[k].service, name)
}

/// The entries after the entry at `i` was renamed to `name`.
pub open spec fn renamed_entries(entries: Seq<EntryView>, i: int, name: Seq<char>) -> Seq<EntryView> {
    entries.update(i, EntryView { service: name, ..entries[i] })
}

/// The name `<service>-<n>` offered for an incoming entry whose service is
/// taken.
pub open spec fn candidate_name(service: Seq<char>, n: nat) -> Seq<char> {
    service + seq!['-'] + crate::text::spec_decimal(n)
}

/// Whether an entry matches a search filter: the filter occurs in its
/// service, username or URL, ASCII letters compared without regard to case.
pub open spec fn entry_matches(e: EntryView, filter: Seq<char>) -> bool {
    ||| crate::text::contains_ignore_ascii_case(e.service, filter)
    ||| crate::text::contains_ignore_ascii_case(e.username, filter)
    ||| crate::text::contains_ignore_ascii_case(e.url, filter)
}

/// The abstract value of a vault.
pub struct VaultView {
    pub path: Seq<char>,
    pub salt: Seq<u8>,
    pub key: Seq<u8>,
    pub entries: Seq<EntryView>,
    pub locked: bool,
}

/// Whether the vault's key is the one the master password derives with the
/// vault's salt.
pub open spec fn opened_with(v: VaultView, master_password: Seq<char>) -> bool {
    v.key == spec_derive_key(master_password, v.salt)
}

/// What `Vault::seal` writes: the payload sealed under the vault's key with
/// the nonce, a tag longer, and opening it gives the payload back.
pub open spec fn spec_sealed(
    v: VaultView,
    nonce: Seq<u8>,
    ciphertext: Seq<u8>,
    plaintext: Seq<u8>,
) -> bool {
    &&& nonce.len() == NONCE_LEN
    &&& ciphertext == aes256gcm_seal(v.key, nonce, plaintext)
    &&& ciphertext.len() == plaintext.len() + crate::encryption::TAG_LEN
    &&& aes256gcm_open(v.key, nonce, ciphertext) == Some(plaintext)
}

/// What a file with this salt, nonce and ciphertext opens to under the
/// master password, or `None` when it does not authenticate.
pub open spec fn spec_unseal(
    salt: Seq<u8>,
    nonce: Seq<u8>,
    ciphertext: Seq<u8>,
    master_password: Seq<char>,
) -> Option<Seq<u8>> {
    aes256gcm_open(spec_derive_key(master_password, salt), nonce, ciphertext)
}

/// An open vault: its location, salt and key, and its entries.
pub struct Vault {
    path: String,
    salt: [u8; SALT_LEN],
    key: [u8; KEY_LEN],
    entries: Vec<PasswordEntry>,
    locked: bool,
}

impl View for Vault {
    type V = VaultView;

    closed spec fn view(&self) -> VaultView {
        VaultView {
            path: self.path@,
            salt: self.salt@,
            key: self.key@,
            entries: entry_views(self.entries@),
            locked: self.locked,
        }
    }
}

/// What a vault file opens to: the derived key and the decrypted payload.
pub struct Unsealed {
    pub key: [u8; KEY_LEN],
    pub plaintext: Vec<u8>,
}

/// A `String` holding the given `&'static str`.
fn owned(s: &str) -> (r: String)
    ensures
        r@ == s@,
{
    text::to_owned(s)
}

/// The trimmed value, or `EmptyField` naming `field` when nothing is left.
fn require_trimmed(value: &str, field: &'static str) -> (res: Result<String, StashError>)
    ensures
        spec_trim(value@).len() == 0 ==> res == Err::<String, StashError>(
            StashError::EmptyField { field },
        ),
        spec_trim(value@).len() > 0 ==> (res matches Ok(s) && s@ == spec_trim(value@)),
{
    let trimmed = text::trim(value);
    if trimmed.is_empty() {
        Err(StashError::EmptyField { field })
    } else {
        Ok(text::to_owned(trimmed))
    }
}

/// The trimmed value of an optional field; it may be empty.
fn optional_text(value: &str) -> (res: String)
    ensures
        res@ == spec_trim(value@),
{
    text::to_owned(text::trim(value))
}

/// `EmptyField` for an empty password.
fn require_password(password: &str) -> (res: Result<(), StashError>)
    ensures
        password@.len() == 0 <==> res == Err::<(), StashError>(
            StashError::EmptyField { field: "password" },
        ),
        password@.len() > 0 <==> res is Ok,
{
    if password.is_empty() {
        Err(StashError::EmptyField { field: "password" })
    } else {
        Ok(())
    }
}

/// The first position in `entries` stored under `service`.
fn position(entries: &Vec<PasswordEntry>, service: &str) -> (res: Option<usize>)
    ensures
        res == match spec_position(entry_views(entries@), service@) {
            Some(i) => Some(i as usize),
            None => None::<usize>,
        },
        res matches Some(i) ==> is_first_match(entry_views(entries@), service@, i as int),
{
    let ghost views = entry_views(entries@);
    let mut i: usize = 0;
    while i < entries.len()
        invariant
            i <= entries@.len(),
            views == entry_views(entries@),
            forall|j: int| 0 <= j < i ==> !same_service(#[trigger] views[j].service, service@),
        decreases entries@.len() - i,
    {
        if text::str_eq_ignore_ascii_case(entries[i].service.as_str(), service) {
            proof {
                assert(is_first_match(views, service@, i as int));
                lemma_first_match_unique(views, service@, i as int);
            }
            return Some(i);
        }
        i = i + 1;
    }
    proof {
        assert(!has_service(views, service@));
    }
    None
}

/// There is one first match at most.
pub(crate) proof fn lemma_first_match_unique(entries: Seq<EntryView>, service: Seq<char>, i: int)
    requires
        is_first_match(entries, service, i),
    ensures
        has_service(entries, service),
        spec_position(entries, service) == Some(i),
{
    assert(same_service(entries[i].service, service));
    let k = choose|k: int| is_first_match(entries, service, k);
    assert(is_first_match(entries, service, k));
    if k < i {
        assert(!same_service(entries[k].service, service));
    } else if i < k {
        assert(!same_service(entries[i].service, service));
    }
}

/// When some entry is stored under `service`, a first one is.
pub(crate) proof fn lemma_has_service_first_match(entries: Seq<EntryView>, service: Seq<char>)
    requires
        has_service(entries, service),
    ensures
        (spec_position(entries, service) matches Some(i) && is_first_match(entries, service, i)),
{
    let w = choose|w: int| 0 <= w < entries.len() && same_service(#[trigger] entries[w].service, service);
    lemma_first_match_from(entries, service, 0, w);
}

/// Scanning from `k` up to a known match `w` meets a first match.
proof fn lemma_first_match_from(entries: Seq<EntryView>, service: Seq<char>, k: int, w: int)
    requires
        0 <= k <= w < entries.len(),
        same_service(entries[w].service, service),
        forall|j: int| 0 <= j < k ==> !same_service(#[trigger] entries[j].service, service),
    ensures
        (spec_position(entries, service) matches Some(i) && is_first_match(entries, service, i)),
    decreases w - k,
{
    if same_service(entries[k].service, service) {
        assert(is_first_match(entries, service, k));
        lemma_first_match_unique(entries, service, k);
    } else {
        lemma_first_match_from(entries, service, k + 1, w);
    }
}

/// Calls `Zeroize::zeroize` on a `String`, which overwrites its bytes with
/// zeros and then empties it.
#[verifier::external_body]
fn zeroize_string(s: &mut String)
    ensures
        final(s)@ == Seq::<char>::empty(),
{
    zeroize::Zeroize::zeroize(s);
}

/// Overwrites every field of an entry before it is dropped.
fn wipe_entry(entry: &mut PasswordEntry)
    ensures
        final(entry)@ == (EntryView {
            service: Seq::empty(),
            username: Seq::empty(),
            password: Seq::empty(),
            url: Seq::empty(),
            notes: Seq::empty(),
        }),
{
    zeroize_string(&mut entry.service);
    zeroize_string(&mut entry.username);
    zeroize_string(&mut entry.password);
    zeroize_string(&mut entry.url);
    zeroize_string(&mut entry.notes);
}

impl Vault {
    /// Starts a new, empty vault at `path` with a fresh salt and the key
    /// derived from the master password. `path_exists` tells whether a file
    /// is already there; an existing file is never overwritten.
    pub fn create(path: &str, master_password: &str, path_exists: bool) -> (res: Result<
        Vault,
        StashError,
    >)
        ensures
            path_exists ==> (res matches Err(StashError::FileAlreadyExists { path: p }) && p@
                == path@),
            !path_exists && master_password@.len() == 0 ==> res == Err::<Vault, StashError>(
                StashError::EmptyField { field: "master password" },
            ),
            !path_exists && master_password@.len() > 0 && vstd::utf8::encode_utf8(
                master_password@,
            ).len() <= 0xFFFF_FFFF ==> res is Ok || res == Err::<Vault, StashError>(
                StashError::EncryptionError(EncryptionError::Random),
            ),
            !(vstd::utf8::encode_utf8(master_password@).len() <= 0xFFFF_FFFF) ==> res is Err,
            res matches Ok(v) ==> {
                &&& v@.path == path@
                &&& v@.entries == Seq::<EntryView>::empty()
                &&& !v@.locked
                &&& v@.key == spec_derive_key(master_password@, v@.salt)
            },
    {
        if path_exists {
            return Err(StashError::FileAlreadyExists { path: owned(path) });
        }
        if master_password.is_empty() {
            return Err(StashError::EmptyField { field: "master password" });
        }
        let salt = encryption::generate_salt()?;
        let key = encryption::derive_key(master_password, &salt)?;
        let vault = Vault { path: owned(path), salt, key, entries: Vec::new(), locked: false };
        proof {
            assert(entry_views(vault.entries@) =~= Seq::<EntryView>::empty());
        }
        Ok(vault)
    }

    /// An unlocked vault made of the parts that were read back from a file.
    pub fn from_parts(
        path: &str,
        salt: [u8; SALT_LEN],
        key: [u8; KEY_LEN],
        entries: Vec<PasswordEntry>,
    ) -> (v: Vault)
        ensures
            v@ == (VaultView {
                path: path@,
                salt: salt@,
                key: key@,
                entries: entry_views(entries@),
                locked: false,
            }),
    {
        Vault { path: owned(path), salt, key, entries, locked: false }
    }

    /// Derives the key from the master password and the file's salt and
    /// opens the payload. A payload that does not authenticate, whether the
    /// password is wrong or the file was tampered with, is reported as
    /// `InvalidMasterPassword`.
    pub fn unseal(file: &VaultFile, master_password: &str) -> (res: Result<Unsealed, StashError>)
        ensures
            res matches Ok(u) ==> u.key@ == spec_derive_key(master_password@, file.salt@)
                && aes256gcm_open(u.key@, file.nonce@, file.ciphertext@) == Some(u.plaintext@),
            vstd::utf8::encode_utf8(master_password@).len() <= 0xFFFF_FFFF ==> {
                &&& res is Ok <==> spec_unseal(
                    file.salt@,
                    file.nonce@,
                    file.ciphertext@,
                    master_password@,
                ) is Some
                &&& res matches Ok(u) ==> spec_unseal(
                    file.salt@,
                    file.nonce@,
                    file.ciphertext@,
                    master_password@,
                ) == Some(u.plaintext@)
                &&& res is Err ==> res == Err::<Unsealed, StashError>(
                    StashError::InvalidMasterPassword,
                )
                &&& forall|p: Seq<u8>|
                    p.len() <= P_MAX && file.ciphertext@ == #[trigger] aes256gcm_seal(
                        spec_derive_key(master_password@, file.salt@),
                        file.nonce@,
                        p,
                    ) ==> (res matches Ok(u) && u.plaintext@ == p)
            },
            !(vstd::utf8::encode_utf8(master_password@).len() <= 0xFFFF_FFFF) ==> res matches Err(
                StashError::EncryptionError(EncryptionError::KeyDerivation(_)),
            ),
    {
        let key = encryption::derive_key(master_password, &file.salt)?;
        match encryption::decrypt(&file.nonce, file.ciphertext.as_slice(), &key) {
            Ok(plaintext) => Ok(Unsealed { key, plaintext }),
            Err(_) => Err(StashError::InvalidMasterPassword),
        }
    }

    /// Encrypts a payload under the vault's key with a fresh nonce and frames
    /// it with the vault's salt. A locked vault refuses.
    pub fn seal(&self, plaintext: &[u8]) -> (res: Result<VaultFile, StashError>)
        ensures
            self@.locked ==> res == Err::<VaultFile, StashError>(StashError::VaultLocked),
            res matches Ok(f) ==> f.salt@ == self@.salt && spec_sealed(
                self@,
                f.nonce@,
                f.ciphertext@,
                plaintext@,
            ),
            !self@.locked && plaintext@.len() <= P_MAX ==> res is Ok || res == Err::<
                VaultFile,
                StashError,
            >(StashError::EncryptionError(EncryptionError::Random)),
            !self@.locked && plaintext@.len() > P_MAX ==> res is Err,
    {
        self.ensure_unlocked()?;
        let (nonce, ciphertext) = encryption::encrypt(plaintext, &self.key)?;
        Ok(VaultFile { salt: self.salt, nonce, ciphertext })
    }

    /// Where the vault is stored.
    pub fn path(&self) -> (r: &str)
        ensures
            r@ == self@.path,
    {
        self.path.as_str()
    }

    /// The salt that the key was derived with.
    pub fn salt(&self) -> (r: [u8; SALT_LEN])
        ensures
            r@ == self@.salt,
    {
        self.salt
    }

    /// The entries, in the order they were added.
    pub fn entries(&self) -> (r: &[PasswordEntry])
        ensures
            entry_views(r@) == self@.entries,
    {
        self.entries.as_slice()
    }

    /// The entries, taken out of the vault.
    pub fn into_entries(self) -> (r: Vec<PasswordEntry>)
        ensures
            entry_views(r@) == self@.entries,
    {
        self.entries
    }

    pub fn is_locked(&self) -> (r: bool)
        ensures
            r == self@.locked,
    {
        self.locked
    }

    fn ensure_unlocked(&self) -> (res: Result<(), StashError>)
        ensures
            self@.locked <==> res == Err::<(), StashError>(StashError::VaultLocked),
            !self@.locked <==> res is Ok,
    {
        if self.locked {
            Err(StashError::VaultLocked)
        } else {
            Ok(())
        }
    }

    /// The first entry stored under `service`, compared without regard to
    /// ASCII case.
    pub fn get(&self, service: &str) -> (res: Option<&PasswordEntry>)
        ensures
            match res {
                Some(e) => spec_get(self@.entries, service@) == Some(e@),
                None => spec_get(self@.entries, service@) is None,
            },
    {
        match position(&self.entries, service) {
            Some(i) => Some(&self.entries[i]),
            None => None,
        }
    }

    /// Adds an entry with no URL or notes.
    pub fn add(&mut self, service: &str, username: &str, password: &str) -> (res: Result<
        (),
        StashError,
    >)
        ensures
            res is Ok <==> !old(self)@.locked && add_accepted(
                old(self)@.entries,
                service@,
                username@,
                password@,
            ),
            res is Ok ==> final(self)@ == (VaultView {
                entries: old(self)@.entries.push(
                    new_entry(service@, username@, password@, Seq::empty(), Seq::empty()),
                ),
                ..old(self)@
            }),
            res is Err ==> final(self)@ == old(self)@,
            old(self)@.locked ==> res == Err::<(), StashError>(StashError::VaultLocked),
            !old(self)@.locked && spec_trim(service@).len() == 0 ==> res == Err::<(), StashError>(
                StashError::EmptyField { field: "service" },
            ),
            !old(self)@.locked && spec_trim(service@).len() > 0 && spec_trim(username@).len() == 0
                ==> res == Err::<(), StashError>(StashError::EmptyField { field: "username" }),
            !old(self)@.locked && spec_trim(service@).len() > 0 && spec_trim(username@).len() > 0
                && password@.len() == 0 ==> res == Err::<(), StashError>(
                StashError::EmptyField { field: "password" },
            ),
            !old(self)@.locked && spec_trim(service@).len() > 0 && spec_trim(username@).len() > 0
                && password@.len() > 0 && has_service(old(self)@.entries, spec_trim(service@)) ==> (
            res matches Err(StashError::DuplicateService { service: s }) && s@ == spec_trim(
                service@,
            )),
    {
        proof {
            reveal_strlit("");
            assert(""@ =~= Seq::<char>::empty());
            assert(spec_trim(Seq::<char>::empty()) == Seq::<char>::empty()) by {
                reveal_with_fuel(crate::text::trim_start, 1);
                reveal_with_fuel(crate::text::trim_end, 1);
            }
        }
        self.add_full(service, username, password, "", "")
    }

    /// Adds an entry. Service, username, URL and notes are trimmed; the
    /// service and username must not be blank, the password must not be
    /// empty, and no entry may already be stored under the service.
    pub fn add_full(
        &mut self,
        service: &str,
        username: &str,
        password: &str,
        url: &str,
        notes: &str,
    ) -> (res: Result<(), StashError>)
        ensures
            res is Ok <==> !old(self)@.locked && add_accepted(
                old(self)@.entries,
                service@,
                username@,
                password@,
            ),
            res is Ok ==> final(self)@ == (VaultView {
                entries: old(self)@.entries.push(
                    new_entry(service@, username@, password@, url@, notes@),
                ),
                ..old(self)@
            }),
            res is Err ==> final(self)@ == old(self)@,
            old(self)@.locked ==> res == Err::<(), StashError>(StashError::VaultLocked),
            !old(self)@.locked && spec_trim(service@).len() == 0 ==> res == Err::<(), StashError>(
                StashError::EmptyField { field: "service" },
            ),
            !old(self)@.locked && spec_trim(service@).len() > 0 && spec_trim(username@).len() == 0
                ==> res == Err::<(), StashError>(StashError::EmptyField { field: "username" }),
            !old(self)@.locked && spec_trim(service@).len() > 0 && spec_trim(username@).len() > 0
                && password@.len() == 0 ==> res == Err::<(), StashError>(
                StashError::EmptyField { field: "password" },
            ),
            !old(self)@.locked && spec_trim(service@).len() > 0 && spec_trim(username@).len() > 0
                && password@.len() > 0 && has_service(old(self)@.entries, spec_trim(service@)) ==> (
            res matches Err(StashError::DuplicateService { service: s }) && s@ == spec_trim(
                service@,
            )),
    {
        self.ensure_unlocked()?;
        let service = require_trimmed(service, "service")?;
        let username = require_trimmed(username, "username")?;
        require_password(password)?;
        if position(&self.entries, service.as_str()).is_some() {
            return Err(StashError::DuplicateService { service });
        }
        let entry = PasswordEntry {
            service,
            username,
            password: text::to_owned(password),
            url: optional_text(url),
            notes: optional_text(notes),
        };
        self.entries.push(entry);
        proof {
            assert(entry_views(self.entries@) =~= entry_views(old(self).entries@).push(entry@));
        }
        Ok(())
    }

    /// Replaces the username and password of the entry stored under
    /// `service`, keeping its URL and notes.
    pub fn update(&mut self, service: &str, username: &str, password: &str) -> (res: Result<
        (),
        StashError,
    >)
        ensures
            res is Ok <==> !old(self)@.locked && spec_trim(username@).len() > 0 && password@.len()
                > 0 && has_service(old(self)@.entries, service@),
            res is Ok ==> final(self)@ == (VaultView {
                entries: updated_entries(
                    old(self)@.entries,
                    spec_position(old(self)@.entries, service@)->0,
                    username@,
                    password@,
                    None,
                    None,
                ),
                ..old(self)@
            }),
            res is Err ==> final(self)@ == old(self)@,
            old(self)@.locked ==> res == Err::<(), StashError>(StashError::VaultLocked),
            !old(self)@.locked && spec_trim(username@).len() == 0 ==> res == Err::<(), StashError>(
                StashError::EmptyField { field: "username" },
            ),
            !old(self)@.locked && spec_trim(username@).len() > 0 && password@.len() == 0 ==> res
                == Err::<(), StashError>(StashError::EmptyField { field: "password" }),
            !old(self)@.locked && spec_trim(username@).len() > 0 && password@.len() > 0
                && !has_service(old(self)@.entries, service@) ==> (res matches Err(
                StashError::ServiceNotFound { service: s },
            ) && s@ == service@),
    {
        self.update_full(service, username, password, None, None)
    }

    /// Replaces the username and password of the entry stored under
    /// `service`, and its URL and notes where they are given (trimmed).
    pub fn update_full(
        &mut self,
        service: &str,
        username: &str,
        password: &str,
        url: Option<&str>,
        notes: Option<&str>,
    ) -> (res: Result<(), StashError>)
        ensures
            res is Ok <==> !old(self)@.locked && spec_trim(username@).len() > 0 && password@.len()
                > 0 && has_service(old(self)@.entries, service@),
            res is Ok ==> final(self)@ == (VaultView {
                entries: updated_entries(
                    old(self)@.entries,
                    spec_position(old(self)@.entries, service@)->0,
                    username@,
                    password@,
                    match url {
                        Some(u) => Some(u@),
                        None => None,
                    },
                    match notes {
                        Some(n) => Some(n@),
                        None => None,
                    },
                ),
                ..old(self)@
            }),
            res is Err ==> final(self)@ == old(self)@,
            old(self)@.locked ==> res == Err::<(), StashError>(StashError::VaultLocked),
            !old(self)@.locked && spec_trim(username@).len() == 0 ==> res == Err::<(), StashError>(
                StashError::EmptyField { field: "username" },
            ),
            !old(self)@.locked && spec_trim(username@).len() > 0 && password@.len() == 0 ==> res
                == Err::<(), StashError>(StashError::EmptyField { field: "password" }),
            !old(self)@.locked && spec_trim(username@).len() > 0 && password@.len() > 0
                && !has_service(old(self)@.entries, service@) ==> (res matches Err(
                StashError::ServiceNotFound { service: s },
            ) && s@ == service@),
    {
        self.update_entry(service, username, Some(password), url, notes)
    }

    /// Like `update_full`, but a password of `None` keeps the stored one.
    pub fn update_entry(
        &mut self,
        service: &str,
        username: &str,
        password: Option<&str>,
        url: Option<&str>,
        notes: Option<&str>,
    ) -> (res: Result<(), StashError>)
        ensures
            res is Ok <==> !old(self)@.locked && spec_trim(username@).len() > 0 && (match password {
                Some(p) => p@.len() > 0,
                None => true,
            }) && has_service(old(self)@.entries, service@),
            res is Ok ==> final(self)@ == (VaultView {
                entries: updated_entries(
                    old(self)@.entries,
                    spec_position(old(self)@.entries, service@)->0,
                    username@,
                    match password {
                        Some(p) => p@,
                        None => old(self)@.entries[spec_position(
                            old(self)@.entries,
                            service@,
                        )->0].password,
                    },
                    match url {
                        Some(u) => Some(u@),
                        None => None,
                    },
                    match notes {
                        Some(n) => Some(n@),
                        None => None,
                    },
                ),
                ..old(self)@
            }),
            res is Err ==> final(self)@ == old(self)@,
            old(self)@.locked ==> res == Err::<(), StashError>(StashError::VaultLocked),
            !old(self)@.locked && spec_trim(username@).len() == 0 ==> res == Err::<(), StashError>(
                StashError::EmptyField { field: "username" },
            ),
            !old(self)@.locked && spec_trim(username@).len() > 0 && (password matches Some(p)
                && p@.len() == 0) ==> res == Err::<(), StashError>(
                StashError::EmptyField { field: "password" },
            ),
            !old(self)@.locked && spec_trim(username@).len() > 0 && !(password matches Some(p)
                && p@.len() == 0) && !has_service(old(self)@.entries, service@) ==> (res matches Err(
                StashError::ServiceNotFound { service: s },
            ) && s@ == service@),
    {
        self.ensure_unlocked()?;
        let new_username = require_trimmed(username, "username")?;
        if let Some(p) = password {
            require_password(p)?;
        }
        let index = match position(&self.entries, service) {
            Some(i) => i,
            None => {
                return Err(StashError::ServiceNotFound { service: owned(service) });
            },
        };
        let ghost old_views = entry_views(self.entries@);
        let old_entry = &self.entries[index];
        let entry = PasswordEntry {
            service: old_entry.service.clone(),
            username: new_username,
            password: match password {
                Some(p) => text::to_owned(p),
                None => old_entry.password.clone(),
            },
            url: match url {
                Some(u) => optional_text(u),
                None => old_entry.url.clone(),
            },
            notes: match notes {
                Some(n) => optional_text(n),
                None => old_entry.notes.clone(),
            },
        };
        let ghost new_view = entry@;
        self.entries.set(index, entry);
        proof {
            assert(entry_views(self.entries@) =~= old_views.update(index as int, new_view));
        }
        Ok(())
    }

    /// Removes every entry stored under `service`.
    pub fn delete(&mut self, service: &str) -> (res: Result<(), StashError>)
        ensures
            res is Ok <==> !old(self)@.locked && has_service(old(self)@.entries, service@),
            res is Ok ==> final(self)@ == (VaultView {
                entries: entries_without(old(self)@.entries, service@),
                ..old(self)@
            }),
            res is Err ==> final(self)@ == old(self)@,
            old(self)@.locked ==> res == Err::<(), StashError>(StashError::VaultLocked),
            !old(self)@.locked && !has_service(old(self)@.entries, service@) ==> (res matches Err(
                StashError::ServiceNotFound { service: s },
            ) && s@ == service@),
    {
        self.ensure_unlocked()?;
        let ghost views = entry_views(self.entries@);
        let mut kept: Vec<PasswordEntry> = Vec::new();
        let mut found = false;
        let mut i: usize = 0;
        while i < self.entries.len()
            invariant
                i <= self.entries@.len(),
                views == entry_views(self.entries@),
                entry_views(kept@) == views.take(i as int).filter(kept_by_delete(service@)),
                found <==> exists|j: int| 0 <= j < i && same_service(#[trigger] views[j].service, service@),
            decreases self.entries@.len() - i,
        {
            let ghost before = entry_views(kept@);
            proof {
                assert(views.take(i + 1) =~= views.take(i as int).push(views[i as int]));
                views.take(i as int).lemma_filter_push(views[i as int], kept_by_delete(service@));
            }
            if text::str_eq_ignore_ascii_case(self.entries[i].service.as_str(), service) {
                found = true;
            } else {
                let e = self.entries[i].clone();
                kept.push(e);
                proof {
                    assert(entry_views(kept@) =~= before.push(views[i as int]));
                }
            }
            i = i + 1;
        }
        if !found {
            return Err(StashError::ServiceNotFound { service: owned(service) });
        }
        proof {
            assert(views.take(i as int) =~= views);
        }
        self.entries = kept;
        Ok(())
    }

    /// Re-keys the vault under a new master password with a fresh salt.
    pub fn change_master(&mut self, new_password: &str) -> (res: Result<(), StashError>)
        ensures
            res is Ok ==> final(self)@ == (VaultView {
                salt: final(self)@.salt,
                key: spec_derive_key(new_password@, final(self)@.salt),
                ..old(self)@
            }),
            res is Err ==> final(self)@ == old(self)@,
            old(self)@.locked ==> res == Err::<(), StashError>(StashError::VaultLocked),
            !old(self)@.locked && new_password@.len() == 0 ==> res == Err::<(), StashError>(
                StashError::EmptyField { field: "master password" },
            ),
            !old(self)@.locked && new_password@.len() > 0 && vstd::utf8::encode_utf8(
                new_password@,
            ).len() <= 0xFFFF_FFFF ==> res is Ok || res == Err::<(), StashError>(
                StashError::EncryptionError(EncryptionError::Random),
            ),
            !(vstd::utf8::encode_utf8(new_password@).len() <= 0xFFFF_FFFF) ==> res is Err,
    {
        self.ensure_unlocked()?;
        if new_password.is_empty() {
            return Err(StashError::EmptyField { field: "master password" });
        }
        let salt = encryption::generate_salt()?;
        let key = encryption::derive_key(new_password, &salt)?;
        self.salt = salt;
        self.key = key;
        Ok(())
    }

    /// Wipes the entries and the key from memory and marks the vault locked.
    pub fn lock(&mut self)
        ensures
            final(self)@ == (VaultView {
                entries: Seq::empty(),
                key: Seq::new(KEY_LEN as nat, |i: int| 0u8),
                locked: true,
                ..old(self)@
            }),
    {
        while self.entries.len() > 0
            invariant
                self.path@ == old(self).path@,
                self.salt@ == old(self).salt@,
                self.key@ == old(self).key@,
                self.locked == old(self).locked,
            decreases self.entries@.len(),
        {
            match self.entries.pop() {
                Some(mut entry) => wipe_entry(&mut entry),
                None => {},
            }
        }
        encryption::zeroize_key(&mut self.key);
        self.locked = true;
        proof {
            assert(entry_views(self.entries@) =~= Seq::<EntryView>::empty());
        }
    }

    /// Replaces a locked vault by the vault that was opened again with the
    /// master password; when opening failed the vault stays as it was.
    pub fn unlock(&mut self, reopened: Result<Vault, StashError>) -> (res: Result<(), StashError>)
        ensures
            match reopened {
                Ok(v) => res is Ok && final(self)@ == v@,
                Err(e) => res == Err::<(), StashError>(e) && final(self)@ == old(self)@,
            },
    {
        match reopened {
            Ok(v) => {
                *self = v;
                Ok(())
            },
            Err(e) => Err(e),
        }
    }

    /// Gives the entry stored under `from` the trimmed name `to`. The new
    /// name must not be blank and must not name another entry.
    #[verifier::loop_isolation(false)]
    pub fn rename(&mut self, from: &str, to: &str) -> (res: Result<(), StashError>)
        ensures
            res is Ok <==> !old(self)@.locked && spec_trim(to@).len() > 0 && has_service(
                old(self)@.entries,
                from@,
            ) && !taken_by_other(
                old(self)@.entries,
                spec_position(old(self)@.entries, from@)->0,
                spec_trim(to@),
            ),
            res is Ok ==> final(self)@ == (VaultView {
                entries: renamed_entries(
                    old(self)@.entries,
                    spec_position(old(self)@.entries, from@)->0,
                    spec_trim(to@),
                ),
                ..old(self)@
            }),
            res is Err ==> final(self)@ == old(self)@,
            old(self)@.locked ==> res == Err::<(), StashError>(StashError::VaultLocked),
            !old(self)@.locked && spec_trim(to@).len() == 0 ==> res == Err::<(), StashError>(
                StashError::EmptyField { field: "service" },
            ),
            !old(self)@.locked && spec_trim(to@).len() > 0 && !has_service(
                old(self)@.entries,
                from@,
            ) ==> (res matches Err(StashError::ServiceNotFound { service: s }) && s@ == from@),
            !old(self)@.locked && spec_trim(to@).len() > 0 && has_service(old(self)@.entries, from@)
                && taken_by_other(
                old(self)@.entries,
                spec_position(old(self)@.entries, from@)->0,
                spec_trim(to@),
            ) ==> (res matches Err(StashError::DuplicateService { service: s }) && s@ == spec_trim(
                to@,
            )),
    {
        self.ensure_unlocked()?;
        let new_name = require_trimmed(to, "service")?;
        let index = match position(&self.entries, from) {
            Some(i) => i,
            None => {
                return Err(StashError::ServiceNotFound { service: owned(from) });
            },
        };
        let ghost views = entry_views(self.entries@);
        let mut j: usize = 0;
        while j < self.entries.len()
            invariant
                j <= self.entries@.len(),
                views == entry_views(self.entries@),
                index < views.len(),
                forall|k: int|
                    0 <= k < j && k != index ==> !same_service(
                        #[trigger] views[k].service,
                        new_name@,
                    ),
            decreases self.entries@.len() - j,
        {
            if j != index && text::str_eq_ignore_ascii_case(
                self.entries[j].service.as_str(),
                new_name.as_str(),
            ) {
                proof {
                    assert(same_service(views[j as int].service, new_name@));
                }
                return Err(StashError::DuplicateService { service: new_name });
            }
            j = j + 1;
        }
        let old_entry = &self.entries[index];
        let entry = PasswordEntry {
            service: new_name,
            username: old_entry.username.clone(),
            password: old_entry.password.clone(),
            url: old_entry.url.clone(),
            notes: old_entry.notes.clone(),
        };
        let ghost new_view = entry@;
        self.entries.set(index, entry);
        proof {
            assert(entry_views(self.entries@) =~= views.update(index as int, new_view));
        }
        Ok(())
    }

    /// Appends an entry as it is. Callers add only entries whose service is
    /// not stored yet.
    pub fn absorb_new(&mut self, entry: PasswordEntry)
        ensures
            final(self)@ == (VaultView { entries: old(self)@.entries.push(entry@), ..old(self)@ }),
    {
        let ghost e = entry@;
        self.entries.push(entry);
        proof {
            assert(entry_views(self.entries@) =~= entry_views(old(self).entries@).push(e));
        }
    }

    /// Puts `entry` in place of the entry stored under its service, or
    /// appends it when there is none.
    pub fn replace_entry(&mut self, entry: PasswordEntry)
        ensures
            final(self)@ == (VaultView {
                entries: match spec_position(old(self)@.entries, entry@.service) {
                    Some(i) => old(self)@.entries.update(i, entry@),
                    None => old(self)@.entries.push(entry@),
                },
                ..old(self)@
            }),
    {
        let ghost e = entry@;
        match position(&self.entries, entry.service.as_str()) {
            Some(i) => {
                self.entries.set(i, entry);
                proof {
                    assert(entry_views(self.entries@) =~= entry_views(old(self).entries@).update(
                        i as int,
                        e,
                    ));
                }
            },
            None => {
                self.entries.push(entry);
                proof {
                    assert(entry_views(self.entries@) =~= entry_views(old(self).entries@).push(e));
                }
            },
        }
    }

    /// Adds an incoming entry under the trimmed name `new_name`, which must
    /// not be blank and must not be stored yet; returns the entry's old
    /// service and its new one.
    pub fn absorb_renamed(&mut self, incoming: PasswordEntry, new_name: &str) -> (res: Result<
        (String, String),
        StashError,
    >)
        ensures
            res is Ok <==> !old(self)@.locked && spec_trim(new_name@).len() > 0 && !has_service(
                old(self)@.entries,
                spec_trim(new_name@),
            ),
            res matches Ok((from, to)) ==> from@ == incoming@.service && to@ == spec_trim(
                new_name@,
            ) && final(self)@ == (VaultView {
                entries: old(self)@.entries.push(
                    EntryView { service: spec_trim(new_name@), ..incoming@ },
                ),
                ..old(self)@
            }),
            res is Err ==> final(self)@ == old(self)@,
            old(self)@.locked ==> res == Err::<(String, String), StashError>(
                StashError::VaultLocked,
            ),
            !old(self)@.locked && spec_trim(new_name@).len() == 0 ==> res == Err::<
                (String, String),
                StashError,
            >(StashError::EmptyField { field: "service" }),
            !old(self)@.locked && spec_trim(new_name@).len() > 0 && has_service(
                old(self)@.entries,
                spec_trim(new_name@),
            ) ==> (res matches Err(StashError::DuplicateService { service: s }) && s@ == spec_trim(
                new_name@,
            )),
    {
        self.ensure_unlocked()?;
        let to = require_trimmed(new_name, "service")?;
        if position(&self.entries, to.as_str()).is_some() {
            return Err(StashError::DuplicateService { service: to });
        }
        let from = incoming.service;
        let entry = PasswordEntry {
            service: to.clone(),
            username: incoming.username,
            password: incoming.password,
            url: incoming.url,
            notes: incoming.notes,
        };
        self.absorb_new(entry);
        Ok((from, to))
    }

    /// Copies of the entries stored under each of `names`, in that order.
    pub fn selected_entries(&self, names: &[String]) -> (res: Result<
        Vec<PasswordEntry>,
        StashError,
    >)
        ensures
            res is Ok <==> forall|k: int|
                0 <= k < names@.len() ==> has_service(self@.entries, #[trigger] names@[k]@),
            res matches Ok(v) ==> v@.len() == names@.len() && forall|k: int|
                0 <= k < names@.len() ==> Some(#[trigger] v@[k]@) == spec_get(
                    self@.entries,
                    names@[k]@,
                ),
            res matches Err(e) ==> exists|k: int|
                0 <= k < names@.len() && !has_service(self@.entries, #[trigger] names@[k]@)
                    && e == (StashError::ServiceNotFound { service: names@[k] }),
    {
        let mut out: Vec<PasswordEntry> = Vec::new();
        let mut k: usize = 0;
        while k < names.len()
            invariant
                k <= names@.len(),
                out@.len() == k,
                forall|m: int| 0 <= m < k ==> has_service(self@.entries, #[trigger] names@[m]@),
                forall|m: int|
                    0 <= m < k ==> Some(#[trigger] out@[m]@) == spec_get(
                        self@.entries,
                        names@[m]@,
                    ),
            decreases names@.len() - k,
        {
            match self.get(names[k].as_str()) {
                Some(e) => {
                    out.push(e.clone());
                },
                None => {
                    return Err(StashError::ServiceNotFound { service: names[k].clone() });
                },
            }
            k = k + 1;
        }
        Ok(out)
    }

    /// The first free name `<service>-<n>`, counting `n` up from 1.
    pub fn unused_name(&self, service: &str) -> (r: String)
        requires
            self@.entries.len() < usize::MAX,
        ensures
            exists|n: nat|
                1 <= n <= self@.entries.len() + 1 && r@ == candidate_name(service@, n)
                    && !has_service(self@.entries, r@) && forall|m: nat|
                    1 <= m < n ==> has_service(
                        self@.entries,
                        #[trigger] candidate_name(service@, m),
                    ),
    {
        let mut n: usize = 1;
        proof {
            lemma_some_candidate_free(self@.entries, service@);
        }
        loop
            invariant
                1 <= n <= self@.entries.len() + 1,
                self@.entries.len() < usize::MAX,
                exists|k: nat|
                    n <= k <= self@.entries.len() + 1 && !has_service(
                        self@.entries,
                        #[trigger] candidate_name(service@, k),
                    ),
                forall|m: nat|
                    1 <= m < n ==> has_service(
                        self@.entries,
                        #[trigger] candidate_name(service@, m),
                    ),
            decreases self@.entries.len() + 1 - n,
        {
            let mut name = text::to_owned(service);
            text::push_char(&mut name, '-');
            let digits = text::decimal(n);
            name.append(digits.as_str());
            proof {
                assert(name@ =~= candidate_name(service@, n as nat));
            }
            if self.get(name.as_str()).is_none() {
                return name;
            }
            n = n + 1;
        }
    }
}

/// A lookup finds the same entry whichever ASCII case the service is
/// written in.
pub proof fn law_get_ignores_ascii_case(entries: Seq<EntryView>, a: Seq<char>, b: Seq<char>)
    requires
        same_service(a, b),
    ensures
        spec_get(entries, a) == spec_get(entries, b),
{
    assert forall|i: int| 0 <= i < entries.len() implies same_service(entries[i].service, a)
        == same_service(entries[i].service, b) by {
        crate::text::lemma_eq_ignore_ascii_case_equivalence(entries[i].service, a, b);
        crate::text::lemma_eq_ignore_ascii_case_equivalence(a, b, entries[i].service);
        crate::text::lemma_eq_ignore_ascii_case_equivalence(entries[i].service, b, a);
    }
    if has_service(entries, a) {
        lemma_has_service_first_match(entries, a);
        let i = spec_position(entries, a)->0;
        assert(is_first_match(entries, b, i));
        lemma_first_match_unique(entries, b, i);
    } else {
        assert(!has_service(entries, b));
    }
}

/// After an accepted `add_full`, a lookup of the service, in any ASCII case,
/// finds the entry that was added.
pub proof fn law_get_after_add(
    entries: Seq<EntryView>,
    service: Seq<char>,
    username: Seq<char>,
    password: Seq<char>,
    url: Seq<char>,
    notes: Seq<char>,
    query: Seq<char>,
)
    requires
        add_accepted(entries, service, username, password),
        same_service(spec_trim(service), query),
    ensures
        spec_get(entries.push(new_entry(service, username, password, url, notes)), query) == Some(
            new_entry(service, username, password, url, notes),
        ),
{
    let e = new_entry(service, username, password, url, notes);
    let after = entries.push(e);
    assert forall|j: int| 0 <= j < entries.len() implies !same_service(
        #[trigger] after[j].service,
        query,
    ) by {
        assert(after[j] == entries[j]);
        if same_service(entries[j].service, query) {
            crate::text::lemma_eq_ignore_ascii_case_equivalence(
                entries[j].service,
                query,
                spec_trim(service),
            );
            crate::text::lemma_eq_ignore_ascii_case_equivalence(
                spec_trim(service),
                query,
                entries[j].service,
            );
            assert(same_service(entries[j].service, spec_trim(service)));
        }
    }
    crate::text::lemma_eq_ignore_ascii_case_equivalence(spec_trim(service), query, query);
    assert(is_first_match(after, query, entries.len() as int));
    lemma_first_match_unique(after, query, entries.len() as int);
}

/// An accepted `add_full` keeps the service names distinct.
pub proof fn law_add_keeps_services_unique(
    entries: Seq<EntryView>,
    service: Seq<char>,
    username: Seq<char>,
    password: Seq<char>,
    url: Seq<char>,
    notes: Seq<char>,
)
    requires
        unique_services(entries),
        add_accepted(entries, service, username, password),
    ensures
        unique_services(entries.push(new_entry(service, username, password, url, notes))),
{
    let e = new_entry(service, username, password, url, notes);
    let after = entries.push(e);
    assert forall|i: int, j: int|
        0 <= i < after.len() && 0 <= j < after.len() && i != j implies !same_service(
        #[trigger] after[i].service,
        #[trigger] after[j].service,
    ) by {
        if i == entries.len() {
            if same_service(after[i].service, after[j].service) {
                crate::text::lemma_eq_ignore_ascii_case_equivalence(
                    after[j].service,
                    after[i].service,
                    after[i].service,
                );
                assert(same_service(entries[j].service, spec_trim(service)));
            }
        } else if j == entries.len() {
            assert(!same_service(entries[i].service, spec_trim(service)));
        }
    }
}

/// After a successful `delete`, no entry is stored under the service, in any
/// ASCII case.
pub proof fn law_get_after_delete(entries: Seq<EntryView>, service: Seq<char>, query: Seq<char>)
    requires
        same_service(service, query),
    ensures
        spec_get(entries_without(entries, service), query) is None,
{
    let rest = entries_without(entries, service);
    assert forall|i: int| 0 <= i < rest.len() implies !same_service(
        #[trigger] rest[i].service,
        query,
    ) by {
        entries.lemma_filter_pred(kept_by_delete(service), i);
        if same_service(rest[i].service, query) {
            crate::text::lemma_eq_ignore_ascii_case_equivalence(service, query, rest[i].service);
            crate::text::lemma_eq_ignore_ascii_case_equivalence(rest[i].service, query, service);
        }
    }
}

/// `delete` keeps every entry stored under another service.
pub proof fn law_delete_keeps_others(entries: Seq<EntryView>, service: Seq<char>, e: EntryView)
    requires
        entries.contains(e),
        !same_service(e.service, service),
    ensures
        entries_without(entries, service).contains(e),
{
    let k = choose|k: int| 0 <= k < entries.len() && entries[k] == e;
    entries.lemma_filter_contains(kept_by_delete(service), k);
}

/// After a successful `update_full`, a lookup of the service finds the
/// updated entry.
pub proof fn law_get_after_update(
    entries: Seq<EntryView>,
    service: Seq<char>,
    username: Seq<char>,
    password: Seq<char>,
    url: Option<Seq<char>>,
    notes: Option<Seq<char>>,
)
    requires
        has_service(entries, service),
    ensures
        ({
            let i = spec_position(entries, service)->0;
            let after = updated_entries(entries, i, username, password, url, notes);
            &&& spec_get(after, service) == Some(after[i])
            &&& after[i].service == entries[i].service
            &&& after[i].username == spec_trim(username)
            &&& after[i].password == password
            &&& after.len() == entries.len()
            &&& forall|j: int| 0 <= j < entries.len() && j != i ==> after[j] == entries[j]
        }),
{
    lemma_has_service_first_match(entries, service);
    let i = spec_position(entries, service)->0;
    let after = updated_entries(entries, i, username, password, url, notes);
    assert(is_first_match(after, service, i));
    lemma_first_match_unique(after, service, i);
}

/// `update_full` keeps the service names distinct.
pub proof fn law_update_keeps_services_unique(
    entries: Seq<EntryView>,
    service: Seq<char>,
    username: Seq<char>,
    password: Seq<char>,
    url: Option<Seq<char>>,
    notes: Option<Seq<char>>,
)
    requires
        unique_services(entries),
        has_service(entries, service),
    ensures
        unique_services(
            updated_entries(
                entries,
                spec_position(entries, service)->0,
                username,
                password,
                url,
                notes,
            ),
        ),
{
    lemma_has_service_first_match(entries, service);
    let k = spec_position(entries, service)->0;
    let after = updated_entries(entries, k, username, password, url, notes);
    assert forall|i: int, j: int|
        0 <= i < after.len() && 0 <= j < after.len() && i != j implies !same_service(
        #[trigger] after[i].service,
        #[trigger] after[j].service,
    ) by {
        assert(after[i].service == entries[i].service);
        assert(after[j].service == entries[j].service);
    }
}

/// `delete` keeps the service names distinct.
pub proof fn law_delete_keeps_services_unique(entries: Seq<EntryView>, service: Seq<char>)
    requires
        unique_services(entries),
    ensures
        unique_services(entries_without(entries, service)),
    decreases entries.len(),
{
    reveal(Seq::filter);
    if entries.len() > 0 {
        let init = entries.drop_last();
        assert(unique_services(init)) by {
            assert forall|i: int, j: int|
                0 <= i < init.len() && 0 <= j < init.len() && i != j implies !same_service(
                #[trigger] init[i].service,
                #[trigger] init[j].service,
            ) by {
                assert(init[i] == entries[i]);
                assert(init[j] == entries[j]);
            }
        }
        law_delete_keeps_services_unique(init, service);
        let rest = init.filter(kept_by_delete(service));
        if kept_by_delete(service)(entries.last()) {
            let after = rest.push(entries.last());
            assert(entries_without(entries, service) == after);
            assert forall|i: int, j: int|
                0 <= i < after.len() && 0 <= j < after.len() && i != j implies !same_service(
                #[trigger] after[i].service,
                #[trigger] after[j].service,
            ) by {
                if i == rest.len() {
                    assert(rest.contains(rest[j]));
                    init.lemma_filter_contains_rev(kept_by_delete(service), rest[j]);
                    let k = choose|k: int| 0 <= k < init.len() && init[k] == rest[j];
                    assert(entries[k] == init[k]);
                    assert(!same_service(entries[entries.len() - 1].service, entries[k].service));
                } else if j == rest.len() {
                    assert(rest.contains(rest[i]));
                    init.lemma_filter_contains_rev(kept_by_delete(service), rest[i]);
                    let k = choose|k: int| 0 <= k < init.len() && init[k] == rest[i];
                    assert(entries[k] == init[k]);
                    assert(!same_service(entries[k].service, entries[entries.len() - 1].service));
                }
            }
        }
    }
}

/// An accepted `rename` keeps the service names distinct, and a lookup of
/// the new name then finds the renamed entry with its other fields intact.
pub proof fn law_rename_keeps_services_unique(entries: Seq<EntryView>, from: Seq<char>, to: Seq<char>)
    requires
        unique_services(entries),
        has_service(entries, from),
        !taken_by_other(entries, spec_position(entries, from)->0, to),
    ensures
        ({
            let i = spec_position(entries, from)->0;
            let after = renamed_entries(entries, i, to);
            &&& unique_services(after)
            &&& spec_get(after, to) == Some(EntryView { service: to, ..entries[i] })
        }),
{
    lemma_has_service_first_match(entries, from);
    let k = spec_position(entries, from)->0;
    let after = renamed_entries(entries, k, to);
    assert forall|i: int, j: int|
        0 <= i < after.len() && 0 <= j < after.len() && i != j implies !same_service(
        #[trigger] after[i].service,
        #[trigger] after[j].service,
    ) by {
        if i == k {
            if same_service(after[i].service, after[j].service) {
                assert(same_service(entries[j].service, to)) by {
                    crate::text::lemma_eq_ignore_ascii_case_equivalence(
                        entries[j].service,
                        to,
                        to,
                    );
                }
            }
        } else if j == k {
            assert(!same_service(entries[i].service, to));
        } else {
            assert(after[i] == entries[i]);
            assert(after[j] == entries[j]);
        }
    }
    crate::text::lemma_eq_ignore_ascii_case_equivalence(to, to, to);
    assert forall|j: int| 0 <= j < k implies !same_service(#[trigger] after[j].service, to) by {
        assert(after[j] == entries[j]);
    }
    assert(is_first_match(after, to, k));
    lemma_first_match_unique(after, to, k);
}

/// Resolving a transfer conflict keeps the service names distinct: an
/// overwrite puts the incoming entry in place of the one stored under its
/// service, and a rename adds it under a name that is free.
pub proof fn law_conflict_resolution_keeps_services_unique(
    entries: Seq<EntryView>,
    incoming: EntryView,
    new_name: Seq<char>,
)
    requires
        unique_services(entries),
    ensures
        has_service(entries, incoming.service) ==> unique_services(
            entries.update(spec_position(entries, incoming.service)->0, incoming),
        ),
        !has_service(entries, new_name) ==> unique_services(
            entries.push(EntryView { service: new_name, ..incoming }),
        ),
{
    if has_service(entries, incoming.service) {
        lemma_has_service_first_match(entries, incoming.service);
        let k = spec_position(entries, incoming.service)->0;
        let after = entries.update(k, incoming);
        assert forall|i: int, j: int|
            0 <= i < after.len() && 0 <= j < after.len() && i != j implies !same_service(
            #[trigger] after[i].service,
            #[trigger] after[j].service,
        ) by {
            if i == k {
                if same_service(after[i].service, after[j].service) {
                    crate::text::lemma_eq_ignore_ascii_case_equivalence(
                        entries[k].service,
                        incoming.service,
                        entries[j].service,
                    );
                }
            } else if j == k {
                if same_service(after[i].service, after[j].service) {
                    crate::text::lemma_eq_ignore_ascii_case_equivalence(
                        entries[i].service,
                        incoming.service,
                        entries[k].service,
                    );
                    crate::text::lemma_eq_ignore_ascii_case_equivalence(
                        entries[k].service,
                        incoming.service,
                        incoming.service,
                    );
                }
            } else {
                assert(after[i] == entries[i]);
                assert(after[j] == entries[j]);
            }
        }
    }
    if !has_service(entries, new_name) {
        let after = entries.push(EntryView { service: new_name, ..incoming });
        assert forall|i: int, j: int|
            0 <= i < after.len() && 0 <= j < after.len() && i != j implies !same_service(
            #[trigger] after[i].service,
            #[trigger] after[j].service,
        ) by {
            if i == entries.len() {
                if same_service(after[i].service, after[j].service) {
                    crate::text::lemma_eq_ignore_ascii_case_equivalence(
                        after[j].service,
                        new_name,
                        new_name,
                    );
                    assert(same_service(entries[j].service, new_name));
                }
            } else if j == entries.len() {
                assert(!same_service(entries[i].service, new_name));
            }
        }
    }
}

/// What a save writes, an open with the same master password reads back.
/// A vault whose key the master password derives with its salt (as
/// `Vault::create`, `Vault::change_master`, and `Vault::unseal` with
/// `Vault::from_parts` leave it) seals a payload into a file (`Vault::seal`);
/// the file's bytes decode to the vault's salt and the file's nonce and
/// ciphertext, and opening them with the master password gives the payload
/// back, which is what `Vault::unseal` returns.
pub proof fn law_save_then_open(
    v: VaultView,
    master_password: Seq<char>,
    nonce: Seq<u8>,
    ciphertext: Seq<u8>,
    plaintext: Seq<u8>,
)
    requires
        v.salt.len() == SALT_LEN,
        opened_with(v, master_password),
        spec_sealed(v, nonce, ciphertext, plaintext),
    ensures
        crate::persistence::spec_decode(crate::persistence::spec_encode(v.salt, nonce, ciphertext))
            == Some((v.salt, nonce, ciphertext)),
        spec_unseal(v.salt, nonce, ciphertext, master_password) == Some(plaintext),
{
    crate::persistence::law_decode_after_encode(v.salt, nonce, ciphertext);
}

/// Different numbers give names that are different services.
proof fn lemma_candidates_distinct(service: Seq<char>, a: nat, b: nat)
    requires
        same_service(candidate_name(service, a), candidate_name(service, b)),
    ensures
        a == b,
{
    let ca = candidate_name(service, a);
    let cb = candidate_name(service, b);
    let da = crate::text::spec_decimal(a);
    let db = crate::text::spec_decimal(b);
    crate::text::lemma_decimal_digits(a);
    crate::text::lemma_decimal_digits(b);
    let fa = ca.map_values(|c: char| crate::text::ascii_fold(c));
    let fb = cb.map_values(|c: char| crate::text::ascii_fold(c));
    assert(fa.len() == fb.len());
    assert(da.len() == db.len());
    let off = service.len() + 1;
    assert forall|i: int| 0 <= i < da.len() implies da[i] == db[i] by {
        assert(ca[off + i] == da[i]);
        assert(cb[off + i] == db[i]);
        assert(fa[off + i] == fb[off + i]);
        assert('0' <= da[i] <= '9');
        assert('0' <= db[i] <= '9');
    }
    assert(da =~= db);
    crate::text::lemma_decimal_injective(a, b);
}

/// Among the names `<service>-1` to `<service>-(len + 1)` at least one is
/// free, since the entries can hold at most `len` of them.
proof fn lemma_some_candidate_free(entries: Seq<EntryView>, service: Seq<char>)
    ensures
        exists|n: nat|
            1 <= n <= entries.len() + 1 && !has_service(entries, #[trigger] candidate_name(service, n)),
{
    if forall|n: nat|
        1 <= n <= entries.len() + 1 ==> has_service(entries, #[trigger] candidate_name(service, n)) {
        let x = vstd::set_lib::set_int_range(1, entries.len() as int + 2);
        let f = |n: int| spec_position(entries, candidate_name(service, n as nat))->0;
        vstd::set_lib::lemma_int_range(1, entries.len() as int + 2);
        vstd::set_lib::lemma_int_range(0, entries.len() as int);
        assert forall|n: int| #[trigger] x.contains(n) implies is_first_match(
            entries,
            candidate_name(service, n as nat),
            f(n),
        ) && 0 <= f(n) < entries.len() by {
            assert(has_service(entries, candidate_name(service, n as nat)));
            lemma_has_service_first_match(entries, candidate_name(service, n as nat));
        }
        assert(vstd::relations::injective_on(f, x)) by {
            assert forall|a: int, b: int|
                x.contains(a) && x.contains(b) && #[trigger] f(a) == #[trigger] f(b) implies a == b by {
                let i = f(a);
                let ca = candidate_name(service, a as nat);
                let cb = candidate_name(service, b as nat);
                assert(same_service(entries[i].service, ca));
                assert(same_service(entries[i].service, cb));
                crate::text::lemma_eq_ignore_ascii_case_equivalence(ca, entries[i].service, cb);
                lemma_candidates_distinct(service, a as nat, b as nat);
            }
        }
        let y = x.map(f);
        vstd::set_lib::lemma_map_size(x, y, f);
        assert(y.subset_of(vstd::set_lib::set_int_range(0, entries.len() as int))) by {
            assert forall|i: int| #[trigger] y.contains(i) implies 0 <= i < entries.len() by {
                let n = choose|n: int| x.contains(n) && f(n) == i;
            }
        }
        vstd::set_lib::lemma_len_subset(y, vstd::set_lib::set_int_range(0, entries.len() as int));
        assert(false);
    }
}

} // verus!
