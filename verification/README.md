# Aegis vault

Password-protected file vaults: a file is encrypted into a vault beside it with
streaming AES-256-GCM, under a key that Argon2id derives from a password. The
file is then overwritten three times and removed. Classic vaults, with PBKDF2 keys and
smaller segments, are read and written too.

- `src/` is the library, verified with Verus: headers, keys, segment streams,
  the encryption, decryption and shredding tasks, and the state behind the
  windows. Each task is a state machine that asks for one action at a time.
- `app/` is the desktop program: it carries out the actions and draws the
  windows.
- `tests/` runs the library against memory.

What the library states as a whole is in `src/round_trip.rs` and
`src/classic_round_trip.rs`: a decryption gives back what an encryption took.
