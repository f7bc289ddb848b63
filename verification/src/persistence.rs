//! The on-disk `PWS1` vault framing.
//!
//! ```text
//! magic        4 bytes  b"PWS1"
//! salt        16 bytes  Argon2id salt (fixed at init)
//! nonce       12 bytes  AES-GCM nonce (new on every save)
//! ciphertext   N bytes  AES-256-GCM payload including tag
//! ```
use vstd::prelude::*;

use crate::encryption::{NONCE_LEN, SALT_LEN};
use crate::error::StashError;

verus! {

pub const MAGIC_LEN: usize = 4;
pub const MAGIC: [u8; 4] = [0x50u8, 0x57u8, 0x53u8, 0x31u8];
pub const HEADER_LEN: usize = MAGIC_LEN + SALT_LEN + NONCE_LEN;
pub const GCM_TAG_LEN: usize = 16;

/// The four magic bytes `PWS1`.
pub open spec fn magic() -> Seq<u8> {
    seq![0x50u8, 0x57u8, 0x53u8, 0x31u8]
}

/// The bytes of a vault file with the given salt, nonce and ciphertext.
pub open spec fn spec_encode(salt: Seq<u8>, nonce: Seq<u8>, ciphertext: Seq<u8>) -> Seq<u8> {
    magic() + salt + nonce + ciphertext
}

/// Whether `data` is a well-framed vault file: long enough to hold the
/// header and a GCM tag, and starting with the magic bytes.
pub open spec fn spec_well_framed(data: Seq<u8>) -> bool {
    &&& data.len() >= HEADER_LEN + GCM_TAG_LEN
    &&& data.subrange(0, MAGIC_LEN as int) == magic()
}

/// The salt, nonce and ciphertext of a well-framed vault file.
pub open spec fn spec_decode(data: Seq<u8>) -> Option<(Seq<u8>, Seq<u8>, Seq<u8>)> {
    if spec_well_framed(data) {
        Some((
            data.subrange(MAGIC_LEN as int, (MAGIC_LEN + SALT_LEN) as int),
            data.subrange((MAGIC_LEN + SALT_LEN) as int, HEADER_LEN as int),
            data.subrange(HEADER_LEN as int, data.len() as int),
        ))
    } else {
        None
    }
}

/// Decoding what was encoded gives back the salt, nonce and ciphertext,
/// for every salt and nonce of the format's sizes and every ciphertext that
/// can hold a GCM tag.
pub proof fn law_decode_after_encode(salt: Seq<u8>, nonce: Seq<u8>, ciphertext: Seq<u8>)
    requires
        salt.len() == SALT_LEN,
        nonce.len() == NONCE_LEN,
        ciphertext.len() >= GCM_TAG_LEN,
    ensures
        spec_decode(spec_encode(salt, nonce, ciphertext)) == Some((salt, nonce, ciphertext)),
{
    let data = spec_encode(salt, nonce, ciphertext);
    assert(data.subrange(0, MAGIC_LEN as int) =~= magic());
    assert(data.subrange(MAGIC_LEN as int, (MAGIC_LEN + SALT_LEN) as int) =~= salt);
    assert(data.subrange((MAGIC_LEN + SALT_LEN) as int, HEADER_LEN as int) =~= nonce);
    assert(data.subrange(HEADER_LEN as int, data.len() as int) =~= ciphertext);
}

/// Encoding what was decoded gives back the original bytes.
pub proof fn law_encode_after_decode(data: Seq<u8>)
    requires
        spec_decode(data) is Some,
    ensures
        ({
            let (salt, nonce, ciphertext) = spec_decode(data)->0;
            spec_encode(salt, nonce, ciphertext) == data
        }),
{
    let (salt, nonce, ciphertext) = spec_decode(data)->0;
    assert(spec_encode(salt, nonce, ciphertext) =~= data);
}

/// A vault file split into its parts.
#[derive(Debug, Clone, PartialEq, Eq)]
pub struct VaultFile {
    pub salt: [u8; SALT_LEN],
    pub nonce: [u8; NONCE_LEN],
    pub ciphertext: Vec<u8>,
}

impl VaultFile {
    /// The bytes that `encode` writes for this file.
    pub open spec fn spec_bytes(&self) -> Seq<u8> {
        spec_encode(self.salt@, self.nonce@, self.ciphertext@)
    }

    /// Frames the file: magic, salt, nonce, then the ciphertext.
    pub fn encode(&self) -> (out: Vec<u8>)
        ensures
            out@ == self.spec_bytes(),
    {
        let mut out: Vec<u8> = Vec::with_capacity(HEADER_LEN);
        let mut i: usize = 0;
        while i < MAGIC_LEN
            invariant
                i <= MAGIC_LEN,
                out@ == magic().subrange(0, i as int),
            decreases MAGIC_LEN - i,
        {
            out.push(MAGIC[i]);
            i = i + 1;
            assert(out@ == magic().subrange(0, i as int));
        }
        let mut i: usize = 0;
        while i < SALT_LEN
            invariant
                i <= SALT_LEN,
                out@ == magic() + self.salt@.subrange(0, i as int),
            decreases SALT_LEN - i,
        {
            out.push(self.salt[i]);
            i = i + 1;
            assert(out@ == magic() + self.salt@.subrange(0, i as int));
        }
        let mut i: usize = 0;
        while i < NONCE_LEN
            invariant
                i <= NONCE_LEN,
                out@ == magic() + self.salt@ + self.nonce@.subrange(0, i as int),
            decreases NONCE_LEN - i,
        {
            out.push(self.nonce[i]);
            i = i + 1;
            assert(out@ == magic() + self.salt@ + self.nonce@.subrange(0, i as int));
        }
        let mut i: usize = 0;
        while i < self.ciphertext.len()
            invariant
                i <= self.ciphertext@.len(),
                out@ == magic() + self.salt@ + self.nonce@ + self.ciphertext@.subrange(0, i as int),
            decreases self.ciphertext@.len() - i,
        {
            out.push(self.ciphertext[i]);
            i = i + 1;
            assert(out@ == magic() + self.salt@ + self.nonce@ + self.ciphertext@.subrange(0, i as int));
        }
        out
    }

    /// Splits vault file bytes into salt, nonce and ciphertext, or reports
    /// a corrupt vault when the data is too short or the magic is wrong.
    pub fn decode(data: &[u8]) -> (res: Result<VaultFile, StashError>)
        ensures
            match spec_decode(data@) {
                Some((salt, nonce, ciphertext)) => res matches Ok(f) && f.salt@ == salt
                    && f.nonce@ == nonce && f.ciphertext@ == ciphertext,
                None => res == Err::<VaultFile, StashError>(StashError::CorruptVault),
            },
    {
        if data.len() < HEADER_LEN + GCM_TAG_LEN {
            return Err(StashError::CorruptVault);
        }
        let mut i: usize = 0;
        while i < MAGIC_LEN
            invariant
                i <= MAGIC_LEN,
                data@.len() >= HEADER_LEN + GCM_TAG_LEN,
                data@.subrange(0, i as int) == magic().subrange(0, i as int),
            decreases MAGIC_LEN - i,
        {
            if data[i] != MAGIC[i] {
                assert(data@.subrange(0, MAGIC_LEN as int)[i as int] != magic()[i as int]);
                return Err(StashError::CorruptVault);
            }
            i = i + 1;
            assert(data@.subrange(0, i as int) == magic().subrange(0, i as int));
        }
        assert(magic().subrange(0, MAGIC_LEN as int) == magic());
        let mut salt = [0u8; SALT_LEN];
        let mut i: usize = 0;
        while i < SALT_LEN
            invariant
                i <= SALT_LEN,
                data@.len() >= HEADER_LEN + GCM_TAG_LEN,
                forall|k: int| 0 <= k < i ==> salt@[k] == data@[MAGIC_LEN + k],
            decreases SALT_LEN - i,
        {
            salt[i] = data[MAGIC_LEN + i];
            i = i + 1;
        }
        let mut nonce = [0u8; NONCE_LEN];
        let mut i: usize = 0;
        while i < NONCE_LEN
            invariant
                i <= NONCE_LEN,
                data@.len() >= HEADER_LEN + GCM_TAG_LEN,
                forall|k: int| 0 <= k < i ==> nonce@[k] == data@[MAGIC_LEN + SALT_LEN + k],
            decreases NONCE_LEN - i,
        {
            nonce[i] = data[MAGIC_LEN + SALT_LEN + i];
            i = i + 1;
        }
        let mut ciphertext: Vec<u8> = Vec::new();
        let mut i: usize = HEADER_LEN;
        while i < data.len()
            invariant
                HEADER_LEN <= i <= data@.len(),
                ciphertext@ == data@.subrange(HEADER_LEN as int, i as int),
            decreases data@.len() - i,
        {
            ciphertext.push(data[i]);
            i = i + 1;
            assert(ciphertext@ == data@.subrange(HEADER_LEN as int, i as int));
        }
        assert(salt@ == data@.subrange(MAGIC_LEN as int, (MAGIC_LEN + SALT_LEN) as int));
        assert(nonce@ == data@.subrange((MAGIC_LEN + SALT_LEN) as int, HEADER_LEN as int));
        Ok(VaultFile { salt, nonce, ciphertext })
    }
}

/// `s` without trailing separators and trailing `.` components, down to a
/// single character: what path parsing ignores at the end of a path.
pub open spec fn strip_tail(s: Seq<char>) -> Seq<char>
    decreases s.len(),
{
    if s.len() > 1 && s.last() == '/' {
        strip_tail(s.drop_last())
    } else if s.len() >= 2 && s.last() == '.' && s[s.len() - 2] == '/' {
        strip_tail(s.drop_last())
    } else {
        s
    }
}

/// Where the last component of `s` starts: just after its last separator,
/// or at 0 when it has none.
pub open spec fn name_start(s: Seq<char>) -> int
    decreases s.len(),
{
    if s.len() == 0 {
        0
    } else if s.last() == '/' {
        s.len() as int
    } else {
        name_start(s.drop_last())
    }
}

/// The temporary file a save writes before it renames it over the vault
/// file: the vault file's name with `.tmp` appended, in the same directory.
/// A path without a file name (empty, a root, or ending in `.` or `..`) is
/// left as it is.
pub open spec fn spec_tmp_path(p: Seq<char>) -> Seq<char> {
    let t = strip_tail(p);
    let k = name_start(t);
    let name = t.subrange(k, t.len() as int);
    let parent = strip_tail(t.subrange(0, k));
    if name.len() == 0 || name == "."@ || name == ".."@ {
        p
    } else if parent.len() == 0 {
        name + ".tmp"@
    } else if parent.last() == '/' {
        parent + name + ".tmp"@
    } else {
        parent + "/"@ + name + ".tmp"@
    }
}

/// The length of `strip_tail` of the first `n` characters of `s`.
fn strip_tail_len(s: &str, n: usize) -> (r: usize)
    requires
        n <= s@.len(),
    ensures
        r <= n,
        s@.subrange(0, r as int) == strip_tail(s@.subrange(0, n as int)),
{
    let mut m = n;
    while (m > 1 && s.get_char(m - 1) == '/') || (m >= 2 && s.get_char(m - 1) == '.'
        && s.get_char(m - 2) == '/')
        invariant
            m <= n <= s@.len(),
            strip_tail(s@.subrange(0, m as int)) == strip_tail(s@.subrange(0, n as int)),
        decreases m,
    {
        proof {
            assert(s@.subrange(0, m as int).drop_last() =~= s@.subrange(0, m - 1));
        }
        m = m - 1;
    }
    m
}

/// `name_start` of the first `n` characters of `s`.
fn name_start_of(s: &str, n: usize) -> (r: usize)
    requires
        n <= s@.len(),
    ensures
        r <= n,
        r as int == name_start(s@.subrange(0, n as int)),
{
    let mut k = n;
    while k > 0 && s.get_char(k - 1) != '/'
        invariant
            k <= n <= s@.len(),
            name_start(s@.subrange(0, k as int)) == name_start(s@.subrange(0, n as int)),
        decreases k,
    {
        proof {
            assert(s@.subrange(0, k as int).drop_last() =~= s@.subrange(0, k - 1));
        }
        k = k - 1;
    }
    k
}

/// The temporary file a save writes before it renames it over `path`.
pub fn tmp_path_for(path: &str) -> (r: String)
    ensures
        r@ == spec_tmp_path(path@),
{
    let len = path.unicode_len();
    let t = strip_tail_len(path, len);
    let k = name_start_of(path, t);
    proof {
        assert(path@.subrange(0, len as int) =~= path@);
        assert(path@.subrange(0, t as int).subrange(0, k as int) =~= path@.subrange(0, k as int));
        assert(path@.subrange(0, t as int).subrange(k as int, t as int) =~= path@.subrange(
            k as int,
            t as int,
        ));
    }
    let name = path.substring_char(k, t);
    let p = strip_tail_len(path, k);
    proof {
        reveal_strlit(".");
        reveal_strlit("..");
    }
    if t == k || crate::text::str_eq(name, ".") || crate::text::str_eq(name, "..") {
        return crate::text::to_owned(path);
    }
    let mut out = crate::text::to_owned(path.substring_char(0, p));
    if p > 0 && path.get_char(p - 1) != '/' {
        out.append("/");
    }
    out.append(name);
    out.append(".tmp");
    proof {
        reveal_strlit("/");
        reveal_strlit(".tmp");
    }
    out
}

} // verus!
