# pwstash

An encrypted password vault with a command line and a terminal UI. The vault
is a single local file: a master password derives an Argon2id key, and the
entries are stored as AES-256-GCM encrypted JSON.

## Layout

- `src/` is the library, written in Verus and verified:
  - `persistence` frames the `PWS1` file (magic, salt, nonce, ciphertext)
    and names the temporary file that a save renames over the vault;
  - `encryption` derives keys and seals and opens payloads, through small
    trusted wrappers around `argon2`, `aes-gcm`, `rand` and `zeroize`;
  - `vault` holds the entries, keyed by service name without regard to ASCII
    case, with the rules for adding, updating, renaming and deleting them;
  - `generate` makes random passwords with every character class;
  - `app` and `handler` are the terminal UI's state machine: it hands out
    `Request`s for saving, opening and the clipboard, and takes their results
    back through `App::complete`; `screen` says what the UI shows of it;
  - `paths`, `master_password`, `clipboard` and `report` hold the rules the
    command line follows: which vault file to use, which passwords count,
    how long the clipboard keeps a secret, and what `list` and `get` print.
- `app/` is the program around it: argument parsing, file I/O, the JSON
  payload, password prompts, the clipboard and the terminal.
- `tests/` exercises the library.

## Commands

```bash
pwstash init -f vault.stash
pwstash add  -f vault.stash --service github --username me
pwstash get  -f vault.stash --service github
pwstash copy -f vault.stash --service github
pwstash list -f vault.stash
pwstash update -f vault.stash --service github --username me
pwstash delete -f vault.stash --service github
pwstash gui  -f vault.stash
```

Passwords come from `PWSTASH_MASTER` and `PWSTASH_ENTRY_PASSWORD` or from a
hidden prompt, never from arguments. Without `-f`, the vault is the file
named by `PWSTASH_FILE`, then `./pwstash.stash` if it exists, then
`~/.local/share/pwstash/vault.stash`.
