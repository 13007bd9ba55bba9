//! Keys and passwords: how a password becomes a 32-byte key, and how both are
//! wiped from memory.

use argon2::{Algorithm, Argon2, Params, Version};
use vstd::prelude::*;

verus! {

/// Argon2id memory cost of a new vault, in KiB (64 MiB).
pub const ARGON2_MEM_KIB: u32 = 65536;

/// Argon2id passes of a new vault.
pub const ARGON2_ITERS: u32 = 3;

/// Argon2id lanes of a new vault.
pub const ARGON2_PARALLEL: u32 = 4;

/// PBKDF2 iterations of a new classic vault.
pub const PBKDF2_ITERATIONS: u32 = 350_000;

// ----- wiping -----

/// Calls `zeroize::Zeroize::zeroize` on a 32-byte array: every byte is zero
/// afterwards.
#[verifier::external_body]
fn wipe_key(bytes: &mut [u8; 32])
    ensures
        final(bytes)@ == Seq::new(32, |i: int| 0u8),
    opens_invariants none
    no_unwind
{
    zeroize::Zeroize::zeroize(bytes)
}

/// Calls `zeroize::Zeroize::zeroize` on a vector of bytes: it overwrites the
/// buffer and leaves the vector empty.
#[verifier::external_body]
fn wipe_buffer(bytes: &mut Vec<u8>)
    ensures
        final(bytes)@ == Seq::<u8>::empty(),
    opens_invariants none
    no_unwind
{
    zeroize::Zeroize::zeroize(bytes)
}

/// A password held as bytes; wiped when dropped.
pub struct ProtectedBuffer {
    pub data: Vec<u8>,
}

impl View for ProtectedBuffer {
    type V = Seq<u8>;

    open spec fn view(&self) -> Seq<u8> {
        self.data@
    }
}

impl ProtectedBuffer {
    /// Takes charge of `data`.
    pub fn new(data: Vec<u8>) -> (r: ProtectedBuffer)
        ensures
            r@ == data@,
    {
        ProtectedBuffer { data }
    }

    /// Overwrites and empties the buffer.
    pub fn zeroize(&mut self)
        ensures
            final(self)@ == Seq::<u8>::empty(),
        opens_invariants none
        no_unwind
    {
        wipe_buffer(&mut self.data);
    }
}

impl Drop for ProtectedBuffer {
    fn drop(&mut self)
        ensures
            final(self)@ == Seq::<u8>::empty(),
        opens_invariants none
        no_unwind
    {
        self.zeroize();
    }
}

// ----- Argon2id -----

/// The 32 bytes that Argon2id (version 0x13, no secret, no associated data)
/// derives from a password and a salt under the given costs.
pub uninterp spec fn argon2id_hash(
    password: Seq<u8>,
    salt: Seq<u8>,
    mem_kib: u32,
    iters: u32,
    parallel: u32,
) -> Seq<u8>;

/// Why Argon2 rejects a set of cost parameters; `None` when it accepts them.
pub open spec fn params_error(mem_kib: u32, iters: u32, parallel: u32) -> Option<Seq<char>> {
    if mem_kib < 8 || mem_kib < parallel * 8 {
        Some("memory cost is too small"@)
    } else if iters < 1 {
        Some("time cost is too small"@)
    } else if parallel < 1 {
        Some("not enough threads"@)
    } else if parallel > 0xFF_FFFF {
        Some("too many threads"@)
    } else {
        None
    }
}

/// Why Argon2 rejects a password and a salt of these lengths; `None` when it
/// accepts them.
pub open spec fn input_error(password_len: nat, salt_len: nat) -> Option<Seq<char>> {
    if password_len > 0xFFFF_FFFF {
        Some("password is too long"@)
    } else if salt_len < 8 {
        Some("salt is too short"@)
    } else if salt_len > 0xFFFF_FFFF {
        Some("salt is too long"@)
    } else {
        None
    }
}

/// Costs that Argon2 can be asked about at all: the lane check computes
/// `parallel * 8` in 32 bits, and the blocks of an accepted cost must be
/// addressable.
pub open spec fn derivable(mem_kib: u32, iters: u32, parallel: u32) -> bool {
    &&& mem_kib >= 8 ==> parallel * 8 <= u32::MAX
    &&& params_error(mem_kib, iters, parallel) is None ==> mem_kib * 1024 <= isize::MAX
}

/// What deriving a key comes to: the key, or the message that says why not.
pub open spec fn derive_outcome(
    password: Seq<u8>,
    salt: Seq<u8>,
    mem_kib: u32,
    iters: u32,
    parallel: u32,
) -> Result<Seq<u8>, Seq<char>> {
    match params_error(mem_kib, iters, parallel) {
        Some(text) => Err("Argon2 params error: "@ + text),
        None => match input_error(password.len(), salt.len()) {
            Some(text) => Err("Key derivation failed: "@ + text),
            None => Ok(argon2id_hash(password, salt, mem_kib, iters, parallel)),
        },
    }
}

/// A derived key is the Argon2id hash of the whole password and the whole salt,
/// under exactly the given costs, and there is one wherever Argon2 takes the
/// costs and the lengths.
pub proof fn derived_key_is_the_hash(
    password: Seq<u8>,
    salt: Seq<u8>,
    mem_kib: u32,
    iters: u32,
    parallel: u32,
)
    ensures
        derive_outcome(password, salt, mem_kib, iters, parallel) matches Ok(key) ==> key
            == argon2id_hash(password, salt, mem_kib, iters, parallel),
        derive_outcome(password, salt, mem_kib, iters, parallel) is Ok <==> {
            &&& mem_kib >= 8 && mem_kib >= parallel * 8
            &&& iters >= 1
            &&& 1 <= parallel <= 0xFF_FFFF
            &&& password.len() <= 0xFFFF_FFFF
            &&& 8 <= salt.len() <= 0xFFFF_FFFF
        },
{
}

/// Calls `argon2::Params::new` for a 32-byte output. It accepts exactly the
/// costs for which `params_error` is `None`, and otherwise its error displays
/// as the text given there. The source multiplies `parallel` by 8 in `u32`
/// once `mem_kib` is at least 8; products that do not fit are left out.
#[verifier::external_body]
fn check_params(mem_kib: u32, iters: u32, parallel: u32) -> (r: Result<(), String>)
    requires
        mem_kib >= 8 ==> parallel * 8 <= u32::MAX,
    ensures
        r is Ok <==> params_error(mem_kib, iters, parallel) is None,
        r matches Err(text) ==> params_error(mem_kib, iters, parallel) == Some(text@),
{
    match Params::new(mem_kib, iters, parallel, Some(32)) {
        Ok(_) => Ok(()),
        Err(e) => Err(e.to_string()),
    }
}

/// Calls `argon2::Argon2::hash_password_into` for Argon2id, version 0x13, with
/// a 32-byte output. It fails exactly on the lengths for which `input_error` is
/// not `None`, with an error that displays as the text given there; otherwise
/// the output is a function of the arguments, named `argon2id_hash`. The call
/// allocates `mem_kib` KiB; a machine that cannot provide them aborts.
#[verifier::external_body]
fn hash_password(password: &[u8], salt: &[u8], mem_kib: u32, iters: u32, parallel: u32) -> (r:
    Result<[u8; 32], String>)
    requires
        params_error(mem_kib, iters, parallel) is None,
        mem_kib * 1024 <= isize::MAX,
    ensures
        r is Ok <==> input_error(password@.len(), salt@.len()) is None,
        r matches Ok(key) ==> key@ == argon2id_hash(password@, salt@, mem_kib, iters, parallel),
        r matches Err(text) ==> input_error(password@.len(), salt@.len()) == Some(text@),
{
    let params = match Params::new(mem_kib, iters, parallel, Some(32)) {
        Ok(params) => params,
        Err(e) => return Err(e.to_string()),
    };
    let argon2 = Argon2::new(Algorithm::Argon2id, Version::V0x13, params);
    let mut key = [0u8; 32];
    match argon2.hash_password_into(password, salt, &mut key) {
        Ok(()) => Ok(key),
        Err(e) => Err(e.to_string()),
    }
}

/// A 32-byte derived key; wiped when dropped.
pub struct MasterKey {
    bytes: [u8; 32],
}

impl View for MasterKey {
    type V = Seq<u8>;

    closed spec fn view(&self) -> Seq<u8> {
        self.bytes@
    }
}

impl MasterKey {
    /// A key has 32 bytes.
    pub proof fn length(&self)
        ensures
            self@.len() == 32,
    {
    }

    /// A key made of the given bytes.
    pub fn from_bytes(bytes: [u8; 32]) -> (r: MasterKey)
        ensures
            r@ == bytes@,
    {
        MasterKey { bytes }
    }

    /// The bytes of the key.
    pub fn as_bytes(&self) -> (r: &[u8; 32])
        ensures
            r@ == self@,
    {
        &self.bytes
    }

    /// Derives a key from a password and a salt with Argon2id.
    pub fn derive(password: &[u8], salt: &[u8], mem_kib: u32, iters: u32, parallel: u32) -> (r:
        Result<MasterKey, String>)
        requires
            derivable(mem_kib, iters, parallel),
        ensures
            match r {
                Ok(key) => derive_outcome(password@, salt@, mem_kib, iters, parallel) == Ok::<
                    Seq<u8>,
                    Seq<char>,
                >(key@),
                Err(text) => derive_outcome(password@, salt@, mem_kib, iters, parallel) == Err::<
                    Seq<u8>,
                    Seq<char>,
                >(text@),
            },
            r matches Ok(key) ==> key@ == argon2id_hash(
                password@,
                salt@,
                mem_kib,
                iters,
                parallel,
            ),
            r is Ok <==> {
                &&& mem_kib >= 8 && mem_kib >= parallel * 8
                &&& iters >= 1
                &&& 1 <= parallel <= 0xFF_FFFF
                &&& password@.len() <= 0xFFFF_FFFF
                &&& 8 <= salt@.len() <= 0xFFFF_FFFF
            },
            mem_kib < 8 || mem_kib < parallel * 8 ==> (r matches Err(text) && text@
                == "Argon2 params error: "@ + "memory cost is too small"@),
            mem_kib >= 8 && mem_kib >= parallel * 8 && iters < 1 ==> (r matches Err(text) && text@
                == "Argon2 params error: "@ + "time cost is too small"@),
            mem_kib >= 8 && mem_kib >= parallel * 8 && iters >= 1 && parallel < 1 ==> (
            r matches Err(text) && text@ == "Argon2 params error: "@ + "not enough threads"@),
            mem_kib >= 8 && mem_kib >= parallel * 8 && iters >= 1 && parallel > 0xFF_FFFF ==> (
            r matches Err(text) && text@ == "Argon2 params error: "@ + "too many threads"@),
            mem_kib >= 8 && mem_kib >= parallel * 8 && iters >= 1 && 1 <= parallel <= 0xFF_FFFF
                ==> {
                &&& password@.len() > 0xFFFF_FFFF ==> (r matches Err(text) && text@
                    == "Key derivation failed: "@ + "password is too long"@)
                &&& password@.len() <= 0xFFFF_FFFF && salt@.len() < 8 ==> (r matches Err(text)
                    && text@ == "Key derivation failed: "@ + "salt is too short"@)
                &&& password@.len() <= 0xFFFF_FFFF && salt@.len() > 0xFFFF_FFFF ==> (
                r matches Err(text) && text@ == "Key derivation failed: "@ + "salt is too long"@)
            },
    {
        match check_params(mem_kib, iters, parallel) {
            Err(text) => {
                let mut message = "Argon2 params error: ".to_owned();
                message.append(text.as_str());
                Err(message)
            },
            Ok(()) => match hash_password(password, salt, mem_kib, iters, parallel) {
                Err(text) => {
                    let mut message = "Key derivation failed: ".to_owned();
                    message.append(text.as_str());
                    Err(message)
                },
                Ok(bytes) => Ok(MasterKey { bytes }),
            },
        }
    }

    /// Overwrites the key with zeros.
    pub fn zeroize(&mut self)
        ensures
            final(self)@ == Seq::new(32, |i: int| 0u8),
        opens_invariants none
        no_unwind
    {
        wipe_key(&mut self.bytes);
    }
}

impl Drop for MasterKey {
    fn drop(&mut self)
        ensures
            final(self)@ == Seq::new(32, |i: int| 0u8),
        opens_invariants none
        no_unwind
    {
        self.zeroize();
    }
}

/// Whether `MasterKey::derive` can be asked for a key under these costs.
pub fn can_derive(mem_kib: u32, iters: u32, parallel: u32) -> (r: bool)
    ensures
        r == derivable(mem_kib, iters, parallel),
        mem_kib < 8 ==> r,
        mem_kib >= 8 && parallel * 8 > u32::MAX ==> !r,
        mem_kib >= 8 && mem_kib >= parallel * 8 && iters >= 1 && 1 <= parallel <= 0xFF_FFFF
            && mem_kib * 1024 > isize::MAX ==> !r,
        mem_kib >= 8 && parallel * 8 <= u32::MAX && (mem_kib < parallel * 8 || iters < 1
            || parallel < 1 || parallel > 0xFF_FFFF || mem_kib * 1024 <= isize::MAX) ==> r,
{
    if mem_kib < 8 {
        return true;
    }
    if parallel > 0x1FFF_FFFF {
        return false;
    }
    let lanes: u64 = parallel as u64 * 8;
    let accepted = mem_kib as u64 >= lanes && iters >= 1 && parallel >= 1 && parallel <= 0xFF_FFFF;
    !accepted || mem_kib as u64 * 1024 <= isize::MAX as u64
}

// ----- PBKDF2 -----

/// The 32 bytes that PBKDF2 with HMAC-SHA-256 derives from a password and a
/// salt in the given number of iterations.
pub uninterp spec fn pbkdf2_sha256(password: Seq<u8>, salt: Seq<u8>, iterations: u32) -> Seq<u8>;

/// Calls `pbkdf2::pbkdf2_hmac::<Sha256>` for 32 bytes of output. The output is
/// a function of the arguments, named `pbkdf2_sha256`.
#[verifier::external_body]
fn stretch_password(password: &[u8], salt: &[u8], iterations: u32) -> (r: [u8; 32])
    ensures
        r@ == pbkdf2_sha256(password@, salt@, iterations),
{
    let mut key = [0u8; 32];
    pbkdf2::pbkdf2_hmac::<sha2::Sha256>(password, salt, iterations, &mut key);
    key
}

/// The key of a classic vault; wiped when dropped.
pub struct AegisMasterKey {
    pub key_bytes: [u8; 32],
}

impl View for AegisMasterKey {
    type V = Seq<u8>;

    open spec fn view(&self) -> Seq<u8> {
        self.key_bytes@
    }
}

impl AegisMasterKey {
    /// Overwrites the key with zeros.
    pub fn zeroize(&mut self)
        ensures
            final(self)@ == Seq::new(32, |i: int| 0u8),
        opens_invariants none
        no_unwind
    {
        wipe_key(&mut self.key_bytes);
    }
}

impl Drop for AegisMasterKey {
    fn drop(&mut self)
        ensures
            final(self)@ == Seq::new(32, |i: int| 0u8),
        opens_invariants none
        no_unwind
    {
        self.zeroize();
    }
}

/// Derives the key of a classic vault with PBKDF2 (HMAC-SHA-256).
pub fn derive_secure_key(password: &[u8], salt: &[u8], iterations: u32) -> (r: AegisMasterKey)
    ensures
        r@ == pbkdf2_sha256(password@, salt@, iterations),
{
    let derived_key = stretch_password(password, salt, iterations);
    AegisMasterKey { key_bytes: derived_key }
}

} // verus!
