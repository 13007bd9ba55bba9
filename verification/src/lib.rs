//! Password-protected file vaults.
//!
//! A vault is a header and a payload of sealed segments (`header`, `stream`,
//! `vault`), under a key that is derived from a password (`key`). Encryption,
//! decryption and shredding are tasks (`encrypt`, `decrypt`, `shred`): state
//! machines that ask a driver for one action at a time (`task`). The `gui`
//! module holds the state behind the window. The modules named `classic` do the
//! same for classic vaults. What holds of whole runs, that a decryption gives
//! back what an encryption took, is in `round_trip` and `classic_round_trip`.

pub mod bytes;
pub mod classic_decrypt;
pub mod classic_encrypt;
pub mod classic_gui;
pub mod classic_round_trip;
pub mod decrypt;
pub mod encrypt;
pub mod gui;
pub mod header;
pub mod key;
pub mod machine;
pub mod paths;
pub mod random;
pub mod round_trip;
pub mod shred;
pub mod stream;
pub mod task;
pub mod vault;
