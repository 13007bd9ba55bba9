//! The headers in front of a vault's payload.
//!
//! A vault starts with 46 bytes:
//!
//! | bytes | field                              |
//! |-------|------------------------------------|
//! | 6     | magic, `AEGIS2`                    |
//! | 16    | Argon2id salt                      |
//! | 12    | nonce                              |
//! | 4     | Argon2id memory in KiB, big-endian |
//! | 4     | Argon2id passes, big-endian        |
//! | 4     | Argon2id lanes, big-endian         |
//!
//! A classic vault starts with 27 bytes and no magic: a 16-byte PBKDF2 salt, a
//! 7-byte nonce, and the iterations as a big-endian word.

use crate::bytes::{field, push_be32, push_bytes, read_be32};
use crate::key::{ARGON2_ITERS, ARGON2_MEM_KIB, ARGON2_PARALLEL, PBKDF2_ITERATIONS};
use crate::random::draw;
use vstd::prelude::*;

verus! {

/// The bytes `AEGIS2`, by which a vault is known.
pub const AEGIS_MAGIC: [u8; 6] = [0x41, 0x45, 0x47, 0x49, 0x53, 0x32];

/// Length of the magic.
pub const MAGIC_SIZE: usize = 6;

/// Length of a vault's header.
pub const HEADER_SIZE: u64 = 46;

/// Length of a classic vault's header.
pub const CLASSIC_HEADER_SIZE: u64 = 27;

// ----- the model -----

/// The fields of a vault's header.
#[verifier::ext_equal]
pub struct HeaderModel {
    pub salt: Seq<u8>,
    pub nonce: Seq<u8>,
    pub mem_kib: u32,
    pub iters: u32,
    pub parallel: u32,
}

impl HeaderModel {
    /// The fields have the lengths that the layout gives them.
    pub open spec fn wf(self) -> bool {
        &&& self.salt.len() == 16
        &&& self.nonce.len() == 12
    }

    /// The fields behind the magic, as they are stored.
    pub open spec fn fields(self) -> Seq<u8> {
        self.salt + self.nonce + crate::bytes::be32(self.mem_kib) + crate::bytes::be32(self.iters)
            + crate::bytes::be32(self.parallel)
    }

    /// The header as it is stored.
    pub open spec fn encoded(self) -> Seq<u8> {
        AEGIS_MAGIC@ + self.fields()
    }

    /// The costs are those of a new vault.
    pub open spec fn has_new_costs(self) -> bool {
        &&& self.mem_kib == ARGON2_MEM_KIB
        &&& self.iters == ARGON2_ITERS
        &&& self.parallel == ARGON2_PARALLEL
    }

    /// The part of the nonce that a stream takes; its counter and last flag
    /// stand for the other five bytes.
    pub open spec fn stream_nonce(self) -> Seq<u8> {
        self.nonce.take(7)
    }
}

/// The header that 40 bytes behind the magic stand for.
pub open spec fn fields_of(b: Seq<u8>) -> HeaderModel {
    HeaderModel {
        salt: b.subrange(0, 16),
        nonce: b.subrange(16, 28),
        mem_kib: crate::bytes::be32_value(b.subrange(28, 32)) as u32,
        iters: crate::bytes::be32_value(b.subrange(32, 36)) as u32,
        parallel: crate::bytes::be32_value(b.subrange(36, 40)) as u32,
    }
}

/// A file starts as a vault does.
pub open spec fn has_magic(file: Seq<u8>) -> bool {
    file.len() >= MAGIC_SIZE && file.take(MAGIC_SIZE as int) == AEGIS_MAGIC@
}

/// The header that a vault file starts with.
pub open spec fn header_of(file: Seq<u8>) -> HeaderModel {
    fields_of(file.subrange(MAGIC_SIZE as int, HEADER_SIZE as int))
}

/// The fields of a classic vault's header.
#[verifier::ext_equal]
pub struct ClassicHeaderModel {
    pub salt: Seq<u8>,
    pub nonce: Seq<u8>,
    pub iterations: u32,
}

impl ClassicHeaderModel {
    /// The fields have the lengths that the layout gives them.
    pub open spec fn wf(self) -> bool {
        &&& self.salt.len() == 16
        &&& self.nonce.len() == 7
    }

    /// The header as it is stored.
    pub open spec fn encoded(self) -> Seq<u8> {
        self.salt + self.nonce + crate::bytes::be32(self.iterations)
    }
}

/// The header that a classic vault file starts with.
pub open spec fn classic_header_of(file: Seq<u8>) -> ClassicHeaderModel {
    ClassicHeaderModel {
        salt: file.subrange(0, 16),
        nonce: file.subrange(16, 23),
        iterations: crate::bytes::be32_value(file.subrange(23, 27)) as u32,
    }
}

// ----- laws -----

/// A stored header has 46 bytes, starts with the magic, and reads back as the
/// header it was made from, whatever follows it.
pub proof fn header_reads_back(h: HeaderModel, rest: Seq<u8>)
    requires
        h.wf(),
    ensures
        h.fields().len() == HEADER_SIZE - MAGIC_SIZE,
        h.encoded().len() == HEADER_SIZE,
        has_magic(h.encoded() + rest),
        header_of(h.encoded() + rest) == h,
        fields_of(h.fields()) == h,
{
    let file = h.encoded() + rest;
    let b = file.subrange(MAGIC_SIZE as int, HEADER_SIZE as int);
    crate::bytes::be32_reads_back(h.mem_kib);
    crate::bytes::be32_reads_back(h.iters);
    crate::bytes::be32_reads_back(h.parallel);
    assert(file.take(MAGIC_SIZE as int) =~= AEGIS_MAGIC@);
    assert(b =~= h.fields());
    assert(b.subrange(0, 16) =~= h.salt);
    assert(b.subrange(16, 28) =~= h.nonce);
    assert(b.subrange(28, 32) =~= crate::bytes::be32(h.mem_kib));
    assert(b.subrange(32, 36) =~= crate::bytes::be32(h.iters));
    assert(b.subrange(36, 40) =~= crate::bytes::be32(h.parallel));
}

/// Where the fields of a header stand: the letters AEGIS2, the salt behind them,
/// the nonce behind the salt, and the three costs, each with its most
/// significant byte first.
pub proof fn layout_of_a_header(h: HeaderModel)
    requires
        h.wf(),
    ensures
        h.encoded().len() == 46,
        h.encoded().subrange(0, 6) == seq![0x41u8, 0x45, 0x47, 0x49, 0x53, 0x32],
        h.encoded().subrange(6, 22) == h.salt,
        h.encoded().subrange(22, 34) == h.nonce,
        h.encoded()[34] * 0x100_0000 + h.encoded()[35] * 0x1_0000 + h.encoded()[36] * 0x100
            + h.encoded()[37] == h.mem_kib,
        h.encoded()[38] * 0x100_0000 + h.encoded()[39] * 0x1_0000 + h.encoded()[40] * 0x100
            + h.encoded()[41] == h.iters,
        h.encoded()[42] * 0x100_0000 + h.encoded()[43] * 0x1_0000 + h.encoded()[44] * 0x100
            + h.encoded()[45] == h.parallel,
{
    let b = h.encoded();
    crate::bytes::be32_reads_back(h.mem_kib);
    crate::bytes::be32_reads_back(h.iters);
    crate::bytes::be32_reads_back(h.parallel);
    assert(b.subrange(0, 6) =~= seq![0x41u8, 0x45, 0x47, 0x49, 0x53, 0x32]);
    assert(b.subrange(6, 22) =~= h.salt);
    assert(b.subrange(22, 34) =~= h.nonce);
    assert(b.subrange(34, 38) =~= crate::bytes::be32(h.mem_kib));
    assert(b.subrange(38, 42) =~= crate::bytes::be32(h.iters));
    assert(b.subrange(42, 46) =~= crate::bytes::be32(h.parallel));
    assert(b[34] == b.subrange(34, 38)[0] && b[35] == b.subrange(34, 38)[1] && b[36]
        == b.subrange(34, 38)[2] && b[37] == b.subrange(34, 38)[3]);
    assert(b[38] == b.subrange(38, 42)[0] && b[39] == b.subrange(38, 42)[1] && b[40]
        == b.subrange(38, 42)[2] && b[41] == b.subrange(38, 42)[3]);
    assert(b[42] == b.subrange(42, 46)[0] && b[43] == b.subrange(42, 46)[1] && b[44]
        == b.subrange(42, 46)[2] && b[45] == b.subrange(42, 46)[3]);
}

/// The costs in the header of a new vault: 64 MiB, three passes, four lanes.
pub proof fn costs_of_a_new_header(h: HeaderModel)
    requires
        h.wf(),
        h.has_new_costs(),
    ensures
        h.mem_kib == 65536 && h.iters == 3 && h.parallel == 4,
        h.encoded().subrange(34, 46) == seq![0u8, 1, 0, 0, 0, 0, 0, 3, 0, 0, 0, 4],
{
    let b = h.encoded();
    assert(b.subrange(34, 38) =~= crate::bytes::be32(h.mem_kib));
    assert(b.subrange(38, 42) =~= crate::bytes::be32(h.iters));
    assert(b.subrange(42, 46) =~= crate::bytes::be32(h.parallel));
    assert(b.subrange(34, 46) =~= b.subrange(34, 38) + b.subrange(38, 42) + b.subrange(42, 46));
    assert(crate::bytes::be32(65536) =~= seq![0u8, 1, 0, 0]);
    assert(crate::bytes::be32(3) =~= seq![0u8, 0, 0, 3]);
    assert(crate::bytes::be32(4) =~= seq![0u8, 0, 0, 4]);
    assert(b.subrange(34, 46) =~= seq![0u8, 1, 0, 0, 0, 0, 0, 3, 0, 0, 0, 4]);
}

/// The iterations in the header of a new classic vault: 350000.
pub proof fn iterations_of_a_new_classic_header(h: ClassicHeaderModel)
    requires
        h.wf(),
        h.iterations == PBKDF2_ITERATIONS,
    ensures
        h.iterations == 350_000,
        h.encoded().subrange(23, 27) == seq![0x00u8, 0x05, 0x57, 0x30],
{
    assert(h.encoded().subrange(23, 27) =~= crate::bytes::be32(h.iterations));
    assert(crate::bytes::be32(350_000) =~= seq![0x00u8, 0x05, 0x57, 0x30]);
}

/// Where the fields of a classic header stand: the salt, the nonce behind it,
/// and the iterations with their most significant byte first.
pub proof fn layout_of_a_classic_header(h: ClassicHeaderModel)
    requires
        h.wf(),
    ensures
        h.encoded().len() == 27,
        h.encoded().subrange(0, 16) == h.salt,
        h.encoded().subrange(16, 23) == h.nonce,
        h.encoded()[23] * 0x100_0000 + h.encoded()[24] * 0x1_0000 + h.encoded()[25] * 0x100
            + h.encoded()[26] == h.iterations,
{
    let b = h.encoded();
    crate::bytes::be32_reads_back(h.iterations);
    assert(b.subrange(0, 16) =~= h.salt);
    assert(b.subrange(16, 23) =~= h.nonce);
    assert(b.subrange(23, 27) =~= crate::bytes::be32(h.iterations));
    assert(b[23] == b.subrange(23, 27)[0] && b[24] == b.subrange(23, 27)[1] && b[25]
        == b.subrange(23, 27)[2] && b[26] == b.subrange(23, 27)[3]);
}

/// A vault file starts with exactly the stored form of its header: no two
/// files with different headers read alike.
pub proof fn header_is_unique(file: Seq<u8>)
    requires
        file.len() >= HEADER_SIZE,
        has_magic(file),
    ensures
        header_of(file).wf(),
        header_of(file).encoded() == file.take(HEADER_SIZE as int),
{
    let b = file.subrange(MAGIC_SIZE as int, HEADER_SIZE as int);
    let h = header_of(file);
    crate::bytes::be32_is_unique(b.subrange(28, 32), h.mem_kib);
    crate::bytes::be32_is_unique(b.subrange(32, 36), h.iters);
    crate::bytes::be32_is_unique(b.subrange(36, 40), h.parallel);
    assert(h.fields() =~= b);
    assert(file.take(HEADER_SIZE as int) =~= file.take(MAGIC_SIZE as int) + b);
}

/// A stored classic header has 27 bytes and reads back as the header it was
/// made from, whatever follows it.
pub proof fn classic_header_reads_back(h: ClassicHeaderModel, rest: Seq<u8>)
    requires
        h.wf(),
    ensures
        h.encoded().len() == CLASSIC_HEADER_SIZE,
        classic_header_of(h.encoded() + rest) == h,
{
    let file = h.encoded() + rest;
    crate::bytes::be32_reads_back(h.iterations);
    assert(file.subrange(0, 16) =~= h.salt);
    assert(file.subrange(16, 23) =~= h.nonce);
    assert(file.subrange(23, 27) =~= crate::bytes::be32(h.iterations));
}

/// A classic vault file starts with exactly the stored form of its header.
pub proof fn classic_header_is_unique(file: Seq<u8>)
    requires
        file.len() >= CLASSIC_HEADER_SIZE,
    ensures
        classic_header_of(file).wf(),
        classic_header_of(file).encoded() == file.take(CLASSIC_HEADER_SIZE as int),
{
    let h = classic_header_of(file);
    crate::bytes::be32_is_unique(file.subrange(23, 27), h.iterations);
    assert(h.encoded() =~= file.take(CLASSIC_HEADER_SIZE as int));
}

// ----- code -----

/// A vault's header.
pub struct Header {
    pub salt: [u8; 16],
    pub nonce: [u8; 12],
    pub mem_kib: u32,
    pub iters: u32,
    pub parallel: u32,
}

impl View for Header {
    type V = HeaderModel;

    open spec fn view(&self) -> HeaderModel {
        HeaderModel {
            salt: self.salt@,
            nonce: self.nonce@,
            mem_kib: self.mem_kib,
            iters: self.iters,
            parallel: self.parallel,
        }
    }
}

impl Header {
    /// The header of a new vault with the given salt and nonce.
    pub fn new(salt: [u8; 16], nonce: [u8; 12]) -> (r: Header)
        ensures
            r@.salt == salt@,
            r@.nonce == nonce@,
            r@.has_new_costs(),
            r@.wf(),
            r.salt == salt && r.nonce == nonce,
            r.mem_kib == 65536 && r.iters == 3 && r.parallel == 4,
    {
        Header {
            salt,
            nonce,
            mem_kib: ARGON2_MEM_KIB,
            iters: ARGON2_ITERS,
            parallel: ARGON2_PARALLEL,
        }
    }

    /// The header of a new vault with a random salt and nonce.
    pub fn fresh() -> (r: Header)
        ensures
            r@.has_new_costs(),
            r@.wf(),
            r.mem_kib == 65536 && r.iters == 3 && r.parallel == 4,
            crate::random::drawn(r.salt@),
            crate::random::drawn(r.nonce@),
    {
        let salt = draw(16);
        let nonce = draw(12);
        assert(salt@.subrange(0, 16) =~= salt@);
        assert(nonce@.subrange(0, 12) =~= nonce@);
        Header::new(field::<16>(salt.as_slice(), 0), field::<12>(nonce.as_slice(), 0))
    }

    /// The header as it is stored.
    pub fn encode(&self) -> (r: Vec<u8>)
        ensures
            r@ == self@.encoded(),
            r@.len() == 46,
            r@.subrange(0, 6) == seq![0x41u8, 0x45, 0x47, 0x49, 0x53, 0x32],
            r@.subrange(6, 22) == self.salt@,
            r@.subrange(22, 34) == self.nonce@,
            r@[34] * 0x100_0000 + r@[35] * 0x1_0000 + r@[36] * 0x100 + r@[37] == self.mem_kib,
            r@[38] * 0x100_0000 + r@[39] * 0x1_0000 + r@[40] * 0x100 + r@[41] == self.iters,
            r@[42] * 0x100_0000 + r@[43] * 0x1_0000 + r@[44] * 0x100 + r@[45] == self.parallel,
    {
        let mut out: Vec<u8> = Vec::new();
        push_bytes(&mut out, AEGIS_MAGIC.as_slice());
        push_bytes(&mut out, self.salt.as_slice());
        push_bytes(&mut out, self.nonce.as_slice());
        push_be32(&mut out, self.mem_kib);
        push_be32(&mut out, self.iters);
        push_be32(&mut out, self.parallel);
        assert(out@ =~= self@.encoded());
        proof {
            layout_of_a_header(self@);
        }
        out
    }

    /// The header that the 40 bytes behind the magic stand for.
    pub fn decode_fields(bytes: &[u8]) -> (r: Header)
        requires
            bytes@.len() == HEADER_SIZE - MAGIC_SIZE,
        ensures
            r@ == fields_of(bytes@),
            r@.wf(),
            r.salt@ == bytes@.subrange(0, 16),
            r.nonce@ == bytes@.subrange(16, 28),
            bytes@[28] * 0x100_0000 + bytes@[29] * 0x1_0000 + bytes@[30] * 0x100 + bytes@[31]
                == r.mem_kib,
            bytes@[32] * 0x100_0000 + bytes@[33] * 0x1_0000 + bytes@[34] * 0x100 + bytes@[35]
                == r.iters,
            bytes@[36] * 0x100_0000 + bytes@[37] * 0x1_0000 + bytes@[38] * 0x100 + bytes@[39]
                == r.parallel,
    {
        let r = Header {
            salt: field::<16>(bytes, 0),
            nonce: field::<12>(bytes, 16),
            mem_kib: read_be32(bytes, 28),
            iters: read_be32(bytes, 32),
            parallel: read_be32(bytes, 36),
        };
        assert(r@ =~= fields_of(bytes@));
        r
    }

    /// The part of the nonce that a stream takes.
    pub fn stream_nonce(&self) -> (r: [u8; 7])
        ensures
            r@ == self@.stream_nonce(),
            r@ == self.nonce@.subrange(0, 7),
    {
        let r = field::<7>(self.nonce.as_slice(), 0);
        assert(r@ =~= self@.stream_nonce());
        r
    }
}

/// Whether six bytes are the magic.
pub fn is_magic(bytes: &[u8]) -> (r: bool)
    requires
        bytes@.len() == MAGIC_SIZE,
    ensures
        r == (bytes@ == AEGIS_MAGIC@),
        r == (bytes@ == seq![0x41u8, 0x45, 0x47, 0x49, 0x53, 0x32]),
{
    assert(AEGIS_MAGIC@ =~= seq![0x41u8, 0x45, 0x47, 0x49, 0x53, 0x32]);
    let mut i: usize = 0;
    while i < 6
        invariant
            i <= 6,
            bytes@.len() == 6,
            forall|j: int| 0 <= j < i ==> bytes@[j] == AEGIS_MAGIC@[j],
        decreases 6 - i,
    {
        if bytes[i] != AEGIS_MAGIC[i] {
            return false;
        }
        i = i + 1;
    }
    assert(bytes@ =~= AEGIS_MAGIC@);
    true
}

/// A classic vault's header.
pub struct ClassicHeader {
    pub salt: [u8; 16],
    pub nonce: [u8; 7],
    pub iterations: u32,
}

impl View for ClassicHeader {
    type V = ClassicHeaderModel;

    open spec fn view(&self) -> ClassicHeaderModel {
        ClassicHeaderModel {
            salt: self.salt@,
            nonce: self.nonce@,
            iterations: self.iterations,
        }
    }
}

impl ClassicHeader {
    /// The header of a new classic vault with the given salt and nonce.
    pub fn new(salt: [u8; 16], nonce: [u8; 7]) -> (r: ClassicHeader)
        ensures
            r@.salt == salt@,
            r@.nonce == nonce@,
            r@.iterations == PBKDF2_ITERATIONS,
            r@.wf(),
            r.salt == salt && r.nonce == nonce && r.iterations == 350_000,
    {
        ClassicHeader { salt, nonce, iterations: PBKDF2_ITERATIONS }
    }

    /// The header of a new classic vault with a random salt and nonce.
    pub fn fresh() -> (r: ClassicHeader)
        ensures
            r@.iterations == PBKDF2_ITERATIONS,
            r@.wf(),
            r.iterations == 350_000,
            crate::random::drawn(r.salt@),
            crate::random::drawn(r.nonce@),
    {
        let salt = draw(16);
        let nonce = draw(7);
        assert(salt@.subrange(0, 16) =~= salt@);
        assert(nonce@.subrange(0, 7) =~= nonce@);
        ClassicHeader::new(field::<16>(salt.as_slice(), 0), field::<7>(nonce.as_slice(), 0))
    }

    /// The header as it is stored.
    pub fn encode(&self) -> (r: Vec<u8>)
        ensures
            r@ == self@.encoded(),
            r@.len() == 27,
            r@.subrange(0, 16) == self.salt@,
            r@.subrange(16, 23) == self.nonce@,
            r@[23] * 0x100_0000 + r@[24] * 0x1_0000 + r@[25] * 0x100 + r@[26] == self.iterations,
    {
        let mut out: Vec<u8> = Vec::new();
        push_bytes(&mut out, self.salt.as_slice());
        push_bytes(&mut out, self.nonce.as_slice());
        push_be32(&mut out, self.iterations);
        assert(out@ =~= self@.encoded());
        proof {
            layout_of_a_classic_header(self@);
        }
        out
    }

    /// The header that 27 bytes stand for.
    pub fn decode(bytes: &[u8]) -> (r: ClassicHeader)
        requires
            bytes@.len() == CLASSIC_HEADER_SIZE,
        ensures
            r@ == classic_header_of(bytes@),
            r@.wf(),
            r.salt@ == bytes@.subrange(0, 16),
            r.nonce@ == bytes@.subrange(16, 23),
            bytes@[23] * 0x100_0000 + bytes@[24] * 0x1_0000 + bytes@[25] * 0x100 + bytes@[26]
                == r.iterations,
    {
        let r = ClassicHeader {
            salt: field::<16>(bytes, 0),
            nonce: field::<7>(bytes, 16),
            iterations: read_be32(bytes, 23),
        };
        assert(r@ =~= classic_header_of(bytes@));
        r
    }
}

} // verus!
