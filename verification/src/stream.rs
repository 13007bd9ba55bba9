//! Streaming AES-256-GCM: a payload is a run of segments, each sealed under the
//! key, a seven-byte nonce, its position, and a flag on the last one.

use crate::key::MasterKey;
use aes_gcm::aead::stream::{NewStream, StreamBE32, StreamPrimitive};
use aes_gcm::{Aes256Gcm, KeyInit};
use vstd::prelude::*;

verus! {

/// Bytes that sealing adds to a segment: the GCM tag.
pub const TAG_LEN: usize = 16;

/// Longest plaintext of one segment, the limit of AES-GCM (64 GiB).
pub const SEGMENT_MAX: u64 = 0x10_0000_0000;

/// Declares `aead::Error`, which `aes_gcm` re-exports: a value that says only
/// that a call failed.
#[verifier::external_type_specification]
#[verifier::external_body]
pub struct ExAeadError(aes_gcm::Error);

/// What STREAM-BE32 over AES-256-GCM makes of a plaintext segment: ciphertext
/// and tag under the nonce `nonce`, the counter `position` and the flag `last`.
pub uninterp spec fn sealed_segment(
    key: Seq<u8>,
    nonce: Seq<u8>,
    position: u32,
    last: bool,
    plaintext: Seq<u8>,
) -> Seq<u8>;

/// What STREAM-BE32 over AES-256-GCM reads out of a sealed segment; `None` when
/// the tag does not fit.
pub uninterp spec fn opened_segment(
    key: Seq<u8>,
    nonce: Seq<u8>,
    position: u32,
    last: bool,
    ciphertext: Seq<u8>,
) -> Option<Seq<u8>>;

/// Calls `encrypt` of `aead::stream::StreamBE32` over `Aes256Gcm`. AES-GCM
/// refuses only plaintexts above its length limit. The result is a function of
/// the arguments, named `sealed_segment`; it is longer than the plaintext by
/// the tag, and opening it under the same arguments gives the plaintext back.
#[verifier::external_body]
fn seal_segment(
    key: &[u8; 32],
    nonce: &[u8; 7],
    position: u32,
    last: bool,
    plaintext: &[u8],
) -> (r: Result<Vec<u8>, aes_gcm::Error>)
    requires
        plaintext@.len() <= SEGMENT_MAX,
    ensures
        r is Ok,
        r matches Ok(c) ==> {
            &&& c@ == sealed_segment(key@, nonce@, position, last, plaintext@)
            &&& c@.len() == plaintext@.len() + TAG_LEN
            &&& opened_segment(key@, nonce@, position, last, c@) == Some(plaintext@)
        },
{
    let aead = Aes256Gcm::new(key.into());
    StreamBE32::from_aead(aead, nonce.into()).encrypt(position, last, plaintext)
}

/// Calls `decrypt` of `aead::stream::StreamBE32` over `Aes256Gcm`. The result
/// is a function of the arguments, named `opened_segment`. Where it succeeds,
/// the tag fits and the plaintext is the ciphertext under the same key stream,
/// so sealing it again under the same arguments gives the ciphertext.
#[verifier::external_body]
fn open_segment(
    key: &[u8; 32],
    nonce: &[u8; 7],
    position: u32,
    last: bool,
    ciphertext: &[u8],
) -> (r: Result<Vec<u8>, aes_gcm::Error>)
    requires
        ciphertext@.len() <= SEGMENT_MAX + TAG_LEN,
    ensures
        r is Ok <==> opened_segment(key@, nonce@, position, last, ciphertext@) is Some,
        r matches Ok(p) ==> {
            &&& opened_segment(key@, nonce@, position, last, ciphertext@) == Some(p@)
            &&& sealed_segment(key@, nonce@, position, last, p@) == ciphertext@
            &&& ciphertext@.len() == p@.len() + TAG_LEN
        },
{
    let aead = Aes256Gcm::new(key.into());
    StreamBE32::from_aead(aead, nonce.into()).decrypt(position, last, ciphertext)
}

// ----- the model -----

/// One segment of a payload, in both its forms.
pub struct Segment {
    pub plain: Seq<u8>,
    pub sealed: Seq<u8>,
    pub last: bool,
}

/// The two forms of a segment belong together at `position`: each is what the
/// cipher makes of the other.
pub open spec fn segment_fits(key: Seq<u8>, nonce: Seq<u8>, position: int, s: Segment) -> bool {
    &&& s.sealed == sealed_segment(key, nonce, position as u32, s.last, s.plain)
    &&& opened_segment(key, nonce, position as u32, s.last, s.sealed) == Some(s.plain)
    &&& s.sealed.len() == s.plain.len() + TAG_LEN
}

/// A run of segments from the start of a payload: all fit, only the final one
/// can be flagged last, and the counter never runs over.
pub open spec fn run_fits(key: Seq<u8>, nonce: Seq<u8>, run: Seq<Segment>) -> bool {
    &&& run.len() <= u32::MAX + 1
    &&& forall|i: int| #![trigger run[i]] 0 <= i < run.len() ==> segment_fits(key, nonce, i, run[i])
    &&& forall|i: int|
        #![trigger run[i]]
        0 <= i < run.len() && run[i].last ==> i == run.len() - 1
    &&& run.len() == u32::MAX + 1 ==> run.last().last
}

/// The last segment of the run has been reached.
pub open spec fn run_ended(run: Seq<Segment>) -> bool {
    run.len() > 0 && run.last().last
}

/// The plaintext of a run.
pub open spec fn plain_of(run: Seq<Segment>) -> Seq<u8>
    decreases run.len(),
{
    if run.len() == 0 {
        Seq::empty()
    } else {
        plain_of(run.drop_last()) + run.last().plain
    }
}

/// The sealed bytes of a run.
pub open spec fn sealed_of(run: Seq<Segment>) -> Seq<u8>
    decreases run.len(),
{
    if run.len() == 0 {
        Seq::empty()
    } else {
        sealed_of(run.drop_last()) + run.last().sealed
    }
}

/// Every segment but the final one holds exactly `chunk` plaintext bytes, and
/// that one between one and `chunk`.
pub open spec fn evenly_cut(run: Seq<Segment>, chunk: nat) -> bool {
    &&& forall|i: int| #![trigger run[i]] 0 <= i < run.len() - 1 ==> run[i].plain.len() == chunk
    &&& run.len() > 0 ==> 0 < run.last().plain.len() <= chunk
}

/// What a payload holds from `position` on, when cut into sealed segments of
/// `cap` bytes, of which the final one may be shorter; `None` where a segment
/// does not open or the counter runs over.
pub open spec fn open_from(
    key: Seq<u8>,
    nonce: Seq<u8>,
    position: int,
    payload: Seq<u8>,
    cap: nat,
) -> Option<Seq<u8>>
    decreases payload.len(),
{
    if payload.len() == 0 {
        Some(Seq::empty())
    } else if payload.len() <= cap {
        opened_segment(key, nonce, position as u32, true, payload)
    } else if cap == 0 || position >= u32::MAX {
        None
    } else {
        match opened_segment(key, nonce, position as u32, false, payload.take(cap as int)) {
            None => None,
            Some(p) => match open_from(key, nonce, position + 1, payload.skip(cap as int), cap) {
                None => None,
                Some(rest) => Some(p + rest),
            },
        }
    }
}

/// The payload that sealing `plain` from `position` on comes to, when it is cut
/// into chunks of `chunk` bytes, of which the final one may be shorter.
pub open spec fn seal_from(
    key: Seq<u8>,
    nonce: Seq<u8>,
    position: int,
    plain: Seq<u8>,
    chunk: nat,
) -> Seq<u8>
    decreases plain.len(),
{
    if plain.len() == 0 || chunk == 0 {
        Seq::empty()
    } else if plain.len() <= chunk {
        sealed_segment(key, nonce, position as u32, true, plain)
    } else {
        sealed_segment(key, nonce, position as u32, false, plain.take(chunk as int)) + seal_from(
            key,
            nonce,
            position + 1,
            plain.skip(chunk as int),
            chunk,
        )
    }
}

/// The nonce of AES-GCM under which STREAM-BE32 seals a segment: the prefix,
/// the position as a big-endian word, and one for the last segment or zero for
/// any other.
pub open spec fn segment_nonce(prefix: Seq<u8>, position: u32, last: bool) -> Seq<u8> {
    prefix + crate::bytes::be32(position) + seq![
        if last {
            1u8
        } else {
            0u8
        },
    ]
}

// ----- laws -----

/// Two segments at different positions, or of which one is the last, are sealed
/// under different nonces.
pub proof fn nonces_of_segments_differ(
    prefix: Seq<u8>,
    i: u32,
    i_last: bool,
    j: u32,
    j_last: bool,
)
    requires
        i != j || i_last != j_last,
    ensures
        segment_nonce(prefix, i, i_last) != segment_nonce(prefix, j, j_last),
{
    let n = prefix.len() as int;
    let a = segment_nonce(prefix, i, i_last);
    let b = segment_nonce(prefix, j, j_last);
    crate::bytes::be32_reads_back(i);
    crate::bytes::be32_reads_back(j);
    assert(a.subrange(n, n + 4) =~= crate::bytes::be32(i));
    assert(b.subrange(n, n + 4) =~= crate::bytes::be32(j));
    assert(a[n + 4] == if i_last {
        1u8
    } else {
        0u8
    });
    assert(b[n + 4] == if j_last {
        1u8
    } else {
        0u8
    });
}

/// The segment at index `i` of a payload is sealed, and opens, under counter
/// `i` itself, so no two segments of a payload share a nonce; the flag is set
/// on none but the final one.
pub proof fn segments_are_counted(key: Seq<u8>, nonce: Seq<u8>, run: Seq<Segment>, i: int)
    requires
        run_fits(key, nonce, run),
        0 <= i < run.len(),
    ensures
        i <= u32::MAX,
        run[i].sealed == sealed_segment(key, nonce, i as u32, run[i].last, run[i].plain),
        opened_segment(key, nonce, i as u32, run[i].last, run[i].sealed) == Some(run[i].plain),
        run[i].sealed.len() == run[i].plain.len() + 16,
        run[i].last ==> i == run.len() - 1,
        forall|j: int|
            #![trigger run[j]]
            0 <= j < run.len() && j != i ==> segment_nonce(nonce, i as u32, run[i].last)
                != segment_nonce(nonce, j as u32, run[j].last),
{
    assert forall|j: int| #![trigger run[j]] 0 <= j < run.len() && j != i implies segment_nonce(
        nonce,
        i as u32,
        run[i].last,
    ) != segment_nonce(nonce, j as u32, run[j].last) by {
        nonces_of_segments_differ(nonce, i as u32, run[i].last, j as u32, run[j].last);
    }
}

/// The piece at index `i` of bytes that are cut into pieces of `size`, of which
/// the final one may be shorter.
pub open spec fn cut(bytes: Seq<u8>, size: int, i: int) -> Seq<u8> {
    bytes.subrange(
        i * size,
        if (i + 1) * size <= bytes.len() {
            (i + 1) * size
        } else {
            bytes.len() as int
        },
    )
}

/// In a payload of full segments and a final one that may be shorter, the
/// segment at index `i` is the piece at index `i` of the payload, and its
/// plaintext that of the plaintext; the payload is longer by 16 bytes for each
/// segment.
pub proof fn segments_stand_in_order(
    key: Seq<u8>,
    nonce: Seq<u8>,
    run: Seq<Segment>,
    chunk: nat,
    i: int,
)
    requires
        run_fits(key, nonce, run),
        forall|j: int| #![trigger run[j]] 0 <= j < run.len() - 1 ==> run[j].plain.len() == chunk,
        run.last().plain.len() <= chunk,
        0 <= i < run.len(),
    ensures
        run[i].plain == cut(plain_of(run), chunk as int, i),
        run[i].sealed == cut(sealed_of(run), chunk + 16int, i),
        sealed_of(run).len() == plain_of(run).len() + 16 * run.len(),
        0 <= i * chunk <= plain_of(run).len(),
        0 <= i * (chunk + 16) < sealed_of(run).len(),
        i < run.len() - 1 ==> (i + 1) * chunk <= plain_of(run).len(),
        i < run.len() - 1 ==> (i + 1) * (chunk + 16) < sealed_of(run).len(),
        i == run.len() - 1 ==> (i + 1) * chunk >= plain_of(run).len(),
        i == run.len() - 1 ==> (i + 1) * (chunk + 16) >= sealed_of(run).len(),
        run.last().plain.len() > 0 ==> i * chunk < plain_of(run).len(),
        run.last().plain.len() > 0 && i < run.len() - 1 ==> (i + 1) * chunk < plain_of(run).len(),
    decreases run.len(),
{
    let front = run.drop_last();
    let s = run[run.len() - 1];
    let k = front.len() as int;
    assert(s == run.last());
    assert(segment_fits(key, nonce, k, s));
    assert forall|j: int| #![trigger front[j]] 0 <= j < front.len() implies segment_fits(
        key,
        nonce,
        j,
        front[j],
    ) && front[j].plain.len() == chunk && !front[j].last by {
        assert(front[j] == run[j]);
    }
    lemma_full_lengths(key, nonce, front, chunk);
    assert((k + 1) * chunk == k * chunk + chunk) by (nonlinear_arith);
    assert((k + 1) * (chunk + 16) == k * (chunk + 16) + chunk + 16) by (nonlinear_arith);
    assert(k * (chunk + 16) == k * chunk + 16 * k) by (nonlinear_arith);
    assert(0 <= i * chunk && 0 <= i * (chunk + 16)) by (nonlinear_arith)
        requires
            0 <= i,
            chunk >= 0,
    ;
    if i < k {
        assert((i + 1) * chunk <= k * chunk) by (nonlinear_arith)
            requires
                i + 1 <= k,
                chunk >= 0,
        ;
        assert((i + 1) * (chunk + 16) <= k * (chunk + 16)) by (nonlinear_arith)
            requires
                i + 1 <= k,
                chunk >= 0,
        ;
        assert((i + 1) * chunk == i * chunk + chunk) by (nonlinear_arith);
        assert((i + 1) * (chunk + 16) == i * (chunk + 16) + chunk + 16) by (nonlinear_arith);
        assert(front.last() == front[k - 1]);
        segments_stand_in_order(key, nonce, front, chunk, i);
        assert(run[i] == front[i]);
        assert(cut(plain_of(run), chunk as int, i) =~= cut(plain_of(front), chunk as int, i));
        assert(cut(sealed_of(run), chunk + 16int, i) =~= cut(sealed_of(front), chunk + 16int, i));
    } else {
        assert(cut(plain_of(run), chunk as int, i) =~= s.plain);
        assert(cut(sealed_of(run), chunk + 16int, i) =~= s.sealed);
    }
}

/// A run of full segments has the length of so many chunks.
pub(crate) proof fn lemma_full_lengths(key: Seq<u8>, nonce: Seq<u8>, run: Seq<Segment>, chunk: nat)
    requires
        forall|i: int|
            #![trigger run[i]]
            0 <= i < run.len() ==> segment_fits(key, nonce, i, run[i]) && run[i].plain.len()
                == chunk,
    ensures
        plain_of(run).len() == run.len() * chunk,
        sealed_of(run).len() == run.len() * (chunk + 16),
    decreases run.len(),
{
    if run.len() > 0 {
        let front = run.drop_last();
        let k = front.len() as int;
        assert forall|i: int| #![trigger front[i]] 0 <= i < front.len() implies segment_fits(
            key,
            nonce,
            i,
            front[i],
        ) && front[i].plain.len() == chunk by {
            assert(front[i] == run[i]);
        }
        lemma_full_lengths(key, nonce, front, chunk);
        assert(segment_fits(key, nonce, k, run[k]));
        assert((k + 1) * chunk == k * chunk + chunk) by (nonlinear_arith);
        assert((k + 1) * (chunk + 16) == k * (chunk + 16) + chunk + 16) by (nonlinear_arith);
    }
}

// ----- lemmas -----

pub proof fn lemma_push(run: Seq<Segment>, s: Segment)
    ensures
        plain_of(run.push(s)) == plain_of(run) + s.plain,
        sealed_of(run.push(s)) == sealed_of(run) + s.sealed,
{
    assert(run.push(s).drop_last() =~= run);
}

/// Opening a payload that starts with full segments, already opened, comes to
/// their plaintext and whatever the remainder holds.
pub proof fn lemma_open_after_run(
    key: Seq<u8>,
    nonce: Seq<u8>,
    run: Seq<Segment>,
    rest: Seq<u8>,
    cap: nat,
)
    requires
        run_fits(key, nonce, run),
        cap > 0,
        rest.len() > 0,
        forall|i: int|
            #![trigger run[i]]
            0 <= i < run.len() ==> !run[i].last && run[i].sealed.len() == cap,
    ensures
        open_from(key, nonce, 0, sealed_of(run) + rest, cap) == (match open_from(
            key,
            nonce,
            run.len() as int,
            rest,
            cap,
        ) {
            None => None,
            Some(p) => Some(plain_of(run) + p),
        }),
    decreases run.len(),
{
    if run.len() == 0 {
        assert(sealed_of(run) + rest =~= rest);
        match open_from(key, nonce, 0, rest, cap) {
            None => {},
            Some(p) => {
                assert(plain_of(run) + p =~= p);
            },
        }
    } else {
        let front = run.drop_last();
        let s = run.last();
        let tail = s.sealed + rest;
        assert(sealed_of(run) + rest =~= sealed_of(front) + tail);
        assert forall|i: int| #![trigger front[i]] 0 <= i < front.len() implies segment_fits(
            key,
            nonce,
            i,
            front[i],
        ) && !front[i].last && front[i].sealed.len() == cap by {
            assert(front[i] == run[i]);
        }
        lemma_open_after_run(key, nonce, front, tail, cap);
        assert(segment_fits(key, nonce, front.len() as int, run[run.len() - 1]));
        assert(tail.take(cap as int) =~= s.sealed);
        assert(tail.skip(cap as int) =~= rest);
        match open_from(key, nonce, run.len() as int, rest, cap) {
            None => {},
            Some(p) => {
                assert(plain_of(front) + (s.plain + p) =~= plain_of(run) + p);
            },
        }
    }
}

/// A payload sealed from evenly cut chunks opens to exactly the plaintext that
/// was sealed.
pub proof fn sealed_run_opens(key: Seq<u8>, nonce: Seq<u8>, run: Seq<Segment>, chunk: nat)
    requires
        run_fits(key, nonce, run),
        run.len() > 0 ==> run_ended(run),
        evenly_cut(run, chunk),
    ensures
        open_from(key, nonce, 0, sealed_of(run), chunk + TAG_LEN as nat) == Some(plain_of(run)),
{
    assert forall|i: int| #![trigger run[i]] 0 <= i < run.len() implies run[i].sealed.len()
        == run[i].plain.len() + TAG_LEN && (!run[i].last ==> run[i].sealed.len() == chunk
        + TAG_LEN) by {
        assert(segment_fits(key, nonce, i, run[i]));
    }
    opened_run_opens(key, nonce, run, chunk + TAG_LEN as nat);
}

/// Sealing a plaintext that starts with full chunks, already sealed, comes to
/// their sealed bytes and whatever the remainder becomes.
pub proof fn lemma_seal_after_run(
    key: Seq<u8>,
    nonce: Seq<u8>,
    run: Seq<Segment>,
    rest: Seq<u8>,
    chunk: nat,
)
    requires
        run_fits(key, nonce, run),
        chunk > 0,
        rest.len() > 0,
        forall|i: int|
            #![trigger run[i]]
            0 <= i < run.len() ==> !run[i].last && run[i].plain.len() == chunk,
    ensures
        seal_from(key, nonce, 0, plain_of(run) + rest, chunk) == sealed_of(run) + seal_from(
            key,
            nonce,
            run.len() as int,
            rest,
            chunk,
        ),
    decreases run.len(),
{
    if run.len() == 0 {
        assert(plain_of(run) + rest =~= rest);
        assert(sealed_of(run) + seal_from(key, nonce, 0, rest, chunk) =~= seal_from(
            key,
            nonce,
            0,
            rest,
            chunk,
        ));
    } else {
        let front = run.drop_last();
        let s = run.last();
        let tail = s.plain + rest;
        assert(plain_of(run) + rest =~= plain_of(front) + tail);
        assert forall|i: int| #![trigger front[i]] 0 <= i < front.len() implies segment_fits(
            key,
            nonce,
            i,
            front[i],
        ) && !front[i].last && front[i].plain.len() == chunk by {
            assert(front[i] == run[i]);
        }
        lemma_seal_after_run(key, nonce, front, tail, chunk);
        assert(segment_fits(key, nonce, front.len() as int, run[run.len() - 1]));
        assert(tail.take(chunk as int) =~= s.plain);
        assert(tail.skip(chunk as int) =~= rest);
        let end = seal_from(key, nonce, run.len() as int, rest, chunk);
        assert(sealed_of(front) + (s.sealed + end) =~= sealed_of(run) + end);
    }
}

/// The payload sealed from evenly cut chunks depends on the plaintext alone,
/// not on anything else of the run.
pub proof fn sealed_run_is_the_sealing(key: Seq<u8>, nonce: Seq<u8>, run: Seq<Segment>, chunk: nat)
    requires
        run_fits(key, nonce, run),
        run.len() > 0 ==> run_ended(run),
        evenly_cut(run, chunk),
    ensures
        sealed_of(run) == seal_from(key, nonce, 0, plain_of(run), chunk),
{
    if run.len() > 0 {
        let front = run.drop_last();
        let s = run[run.len() - 1];
        assert forall|i: int| #![trigger front[i]] 0 <= i < front.len() implies segment_fits(
            key,
            nonce,
            i,
            front[i],
        ) && !front[i].last && front[i].plain.len() == chunk by {
            assert(front[i] == run[i]);
        }
        assert(segment_fits(key, nonce, run.len() - 1, s));
        lemma_seal_after_run(key, nonce, front, s.plain, chunk);
    }
}

/// Opening the payload of an opened run comes to its plaintext.
pub proof fn opened_run_opens(key: Seq<u8>, nonce: Seq<u8>, run: Seq<Segment>, cap: nat)
    requires
        run_fits(key, nonce, run),
        cap > 0,
        run.len() > 0 ==> run_ended(run) && 0 < run.last().sealed.len() <= cap,
        forall|i: int|
            #![trigger run[i]]
            0 <= i < run.len() && !run[i].last ==> run[i].sealed.len() == cap,
    ensures
        open_from(key, nonce, 0, sealed_of(run), cap) == Some(plain_of(run)),
{
    if run.len() > 0 {
        let front = run.drop_last();
        let s = run[run.len() - 1];
        assert forall|i: int| #![trigger front[i]] 0 <= i < front.len() implies segment_fits(
            key,
            nonce,
            i,
            front[i],
        ) && !front[i].last && front[i].sealed.len() == cap by {
            assert(front[i] == run[i]);
        }
        assert(segment_fits(key, nonce, run.len() - 1, s));
        lemma_open_after_run(key, nonce, front, s.sealed, cap);
    }
}

// ----- sealing -----

/// What a sealing stream has done: the key and nonce it works under, the number
/// of plaintext bytes announced, and the segments sealed so far.
pub struct SealModel {
    pub key: Seq<u8>,
    pub nonce: Seq<u8>,
    pub size: u64,
    pub run: Seq<Segment>,
}

impl SealModel {
    /// The segments fit, and the stream has ended exactly if it holds a segment
    /// and as many bytes as were announced.
    pub open spec fn wf(self) -> bool {
        &&& self.key.len() == 32
        &&& self.nonce.len() == 7
        &&& run_fits(self.key, self.nonce, self.run)
        &&& run_ended(self.run) <==> self.run.len() > 0 && plain_of(self.run).len() >= self.size
        &&& plain_of(self.run).len() <= u64::MAX
    }

    /// Whether a next chunk of `len` bytes completes the announced size.
    pub open spec fn completes(self, len: nat) -> bool {
        plain_of(self.run).len() + len >= self.size
    }

    /// The segment that a chunk becomes as the next one of the stream.
    pub open spec fn next_segment(self, chunk: Seq<u8>) -> Segment {
        let last = self.completes(chunk.len());
        Segment {
            plain: chunk,
            sealed: sealed_segment(self.key, self.nonce, self.run.len() as u32, last, chunk),
            last,
        }
    }

    /// The counter has no room for another segment that is not the last one.
    pub open spec fn exhausted(self) -> bool {
        self.run.len() >= u32::MAX
    }
}

/// Why a chunk could not be sealed.
#[derive(Clone, Copy, Debug, PartialEq, Eq)]
pub enum SealFailure {
    /// A segment before the last one.
    Segment,
    /// The last segment.
    Last,
}

/// A sealed segment and whether it ends the stream.
pub struct Sealed {
    pub bytes: Vec<u8>,
    pub last: bool,
}

/// Seals the chunks of a plaintext whose size was announced; the chunk that
/// completes this size becomes the last segment.
pub struct SealStream {
    key: MasterKey,
    nonce: [u8; 7],
    position: u32,
    done: u64,
    size: u64,
    run: Ghost<Seq<Segment>>,
}

impl View for SealStream {
    type V = SealModel;

    closed spec fn view(&self) -> SealModel {
        SealModel { key: self.key@, nonce: self.nonce@, size: self.size, run: self.run@ }
    }
}

impl SealStream {
    /// The model is well formed and the counters agree with it.
    pub closed spec fn inv(&self) -> bool {
        &&& self@.wf()
        &&& self.done == plain_of(self.run@).len()
        &&& !run_ended(self.run@) ==> self.position == self.run@.len()
    }

    /// A stream's model is well formed.
    pub proof fn inv_gives_wf(&self)
        requires
            self.inv(),
        ensures
            self@.wf(),
    {
    }

    /// A stream that has sealed nothing yet.
    pub fn new(key: MasterKey, nonce: [u8; 7], size: u64) -> (r: SealStream)
        ensures
            r.inv(),
            r@ == (SealModel { key: key@, nonce: nonce@, size, run: Seq::empty() }),
    {
        proof {
            key.length();
        }
        SealStream { key, nonce, position: 0, done: 0, size, run: Ghost(Seq::empty()) }
    }

    /// Plaintext bytes sealed so far.
    pub fn done(&self) -> (r: u64)
        requires
            self.inv(),
        ensures
            r == plain_of(self@.run).len(),
    {
        self.done
    }

    /// Plaintext bytes announced.
    pub fn size(&self) -> (r: u64)
        ensures
            r == self@.size,
    {
        self.size
    }

    /// Whether a next chunk of `len` bytes completes the announced size.
    pub fn completes(&self, len: usize) -> (r: bool)
        requires
            self.inv(),
        ensures
            r == self@.completes(len as nat),
            r <==> plain_of(self@.run).len() + len >= self@.size,
    {
        self.done >= self.size || len as u64 >= self.size - self.done
    }

    /// Whether the last segment has been sealed.
    pub fn ended(&self) -> (r: bool)
        requires
            self.inv(),
            self@.run.len() > 0,
        ensures
            r == run_ended(self@.run),
    {
        self.done >= self.size
    }

    /// Seals the next chunk. It fails only when the chunk is not the last one
    /// and the counter is at its end; the stream is then unchanged.
    pub fn seal(&mut self, chunk: &[u8]) -> (r: Result<Sealed, SealFailure>)
        requires
            old(self).inv(),
            !run_ended(old(self)@.run),
            chunk@.len() <= SEGMENT_MAX,
            plain_of(old(self)@.run).len() + chunk@.len() <= u64::MAX,
        ensures
            final(self).inv(),
            r is Err <==> !old(self)@.completes(chunk@.len()) && old(self)@.exhausted(),
            match r {
                Ok(sealed) => {
                    let s = old(self)@.next_segment(chunk@);
                    &&& sealed.bytes@ == s.sealed
                    &&& sealed.last == s.last
                    &&& final(self)@ == (SealModel { run: old(self)@.run.push(s), ..old(self)@ })
                },
                Err(failure) => failure == SealFailure::Segment && final(self)@ == old(self)@,
            },
            r is Err <==> old(self)@.run.len() >= 0xFFFF_FFFF && plain_of(old(self)@.run).len()
                + chunk@.len() < old(self)@.size,
            r matches Ok(sealed) ==> {
                &&& sealed.last <==> plain_of(old(self)@.run).len() + chunk@.len()
                    >= old(self)@.size
                &&& sealed.bytes@ == sealed_segment(
                    old(self)@.key,
                    old(self)@.nonce,
                    old(self)@.run.len() as u32,
                    sealed.last,
                    chunk@,
                )
                &&& sealed.bytes@.len() == chunk@.len() + 16
                &&& final(self)@.run.len() == old(self)@.run.len() + 1
                &&& final(self)@.run.drop_last() == old(self)@.run
                &&& plain_of(final(self)@.run) == plain_of(old(self)@.run) + chunk@
                &&& sealed_of(final(self)@.run) == sealed_of(old(self)@.run) + sealed.bytes@
                &&& final(self)@.key == old(self)@.key
                &&& final(self)@.nonce == old(self)@.nonce
                &&& final(self)@.size == old(self)@.size
            },
    {
        let done: u64 = self.done + chunk.len() as u64;
        let last = done >= self.size;
        if !last && self.position == u32::MAX {
            return Err(SealFailure::Segment);
        }
        match seal_segment(self.key.as_bytes(), &self.nonce, self.position, last, chunk) {
            Err(_) => Err(if last {
                SealFailure::Last
            } else {
                SealFailure::Segment
            }),
            Ok(bytes) => {
                let ghost run = self.run@;
                let ghost s = self@.next_segment(chunk@);
                self.done = done;
                if !last {
                    self.position = self.position + 1;
                }
                self.run = Ghost(run.push(s));
                proof {
                    lemma_push(run, s);
                    assert(self.run@.drop_last() =~= run);
                    assert forall|i: int|
                        #![trigger self.run@[i]]
                        0 <= i < self.run@.len() implies segment_fits(
                        self.key@,
                        self.nonce@,
                        i,
                        self.run@[i],
                    ) && (self.run@[i].last ==> i == self.run@.len() - 1) by {
                        if i < run.len() {
                            assert(self.run@[i] == run[i]);
                        }
                    }
                }
                Ok(Sealed { bytes, last })
            },
        }
    }
}

// ----- opening -----

/// What an opening stream has done: the key and nonce it works under, the size
/// of a full sealed segment, the sealed bytes still to come, and the segments
/// opened so far.
pub struct OpenModel {
    pub key: Seq<u8>,
    pub nonce: Seq<u8>,
    pub cap: nat,
    pub remaining: nat,
    pub run: Seq<Segment>,
}

impl OpenModel {
    /// The segments fit, all but the last one are full, and the last one is the
    /// one that leaves nothing to come.
    pub open spec fn wf(self) -> bool {
        &&& self.key.len() == 32
        &&& self.nonce.len() == 7
        &&& 0 < self.cap <= SEGMENT_MAX
        &&& run_fits(self.key, self.nonce, self.run)
        &&& forall|i: int|
            #![trigger self.run[i]]
            0 <= i < self.run.len() && !self.run[i].last ==> self.run[i].sealed.len() == self.cap
        &&& run_ended(self.run) ==> 0 < self.run.last().sealed.len() <= self.cap
        &&& self.run.len() > 0 ==> (run_ended(self.run) <==> self.remaining == 0)
        &&& sealed_of(self.run).len() + self.remaining <= u64::MAX
    }

    /// The length of the next sealed segment; zero at the end.
    pub open spec fn next_len(self) -> nat {
        if self.remaining <= self.cap {
            self.remaining
        } else {
            self.cap
        }
    }

    /// What the next sealed segment holds, if it opens.
    pub open spec fn next_opened(self, sealed: Seq<u8>) -> Option<Seq<u8>> {
        if self.remaining > self.cap && self.run.len() >= u32::MAX {
            None
        } else {
            opened_segment(
                self.key,
                self.nonce,
                self.run.len() as u32,
                self.remaining <= self.cap,
                sealed,
            )
        }
    }

    /// The stream after a segment that opened to `plain`.
    pub open spec fn advance(self, sealed: Seq<u8>, plain: Seq<u8>) -> OpenModel {
        let s = Segment { plain, sealed, last: self.remaining <= self.cap };
        OpenModel {
            remaining: (self.remaining - sealed.len()) as nat,
            run: self.run.push(s),
            ..self
        }
    }
}

/// Which segment did not open.
#[derive(Clone, Copy, Debug, PartialEq, Eq)]
pub enum OpenFailure {
    /// A segment before the last one.
    Segment,
    /// The last segment.
    Last,
}

/// Opens the segments of a sealed payload of known length, in order.
pub struct OpenStream {
    key: MasterKey,
    nonce: [u8; 7],
    position: u32,
    cap: usize,
    remaining: u64,
    total: u64,
    run: Ghost<Seq<Segment>>,
}

impl View for OpenStream {
    type V = OpenModel;

    closed spec fn view(&self) -> OpenModel {
        OpenModel {
            key: self.key@,
            nonce: self.nonce@,
            cap: self.cap as nat,
            remaining: self.remaining as nat,
            run: self.run@,
        }
    }
}

impl OpenStream {
    /// The model is well formed and the counters agree with it.
    pub closed spec fn inv(&self) -> bool {
        &&& self@.wf()
        &&& !run_ended(self.run@) ==> self.position == self.run@.len()
        &&& self.total == self.remaining + sealed_of(self.run@).len()
    }

    /// A stream's model is well formed.
    pub proof fn inv_gives_wf(&self)
        requires
            self.inv(),
        ensures
            self@.wf(),
    {
    }

    /// A stream over `total` sealed bytes in segments of `cap`, of which it has
    /// opened none yet.
    pub fn new(key: MasterKey, nonce: [u8; 7], cap: usize, total: u64) -> (r: OpenStream)
        requires
            0 < cap <= SEGMENT_MAX,
        ensures
            r.inv(),
            r@ == (OpenModel {
                key: key@,
                nonce: nonce@,
                cap: cap as nat,
                remaining: total as nat,
                run: Seq::empty(),
            }),
    {
        proof {
            key.length();
        }
        OpenStream { key, nonce, position: 0, cap, remaining: total, total, run: Ghost(Seq::empty()) }
    }

    /// The length of the next sealed segment; zero at the end.
    pub fn next_len(&self) -> (r: usize)
        ensures
            r == self@.next_len(),
            r <= self@.remaining && r <= self@.cap,
            r == self@.remaining || r == self@.cap,
    {
        if self.remaining <= self.cap as u64 {
            self.remaining as usize
        } else {
            self.cap
        }
    }

    /// Sealed bytes opened so far.
    pub fn done(&self) -> (r: u64)
        requires
            self.inv(),
        ensures
            r == sealed_of(self@.run).len(),
    {
        self.total - self.remaining
    }

    /// Sealed bytes in all.
    pub fn total(&self) -> (r: u64)
        requires
            self.inv(),
        ensures
            r == self@.remaining + sealed_of(self@.run).len(),
    {
        self.total
    }

    /// Opens the next segment. The stream is unchanged if it does not open.
    pub fn open(&mut self, sealed: &[u8]) -> (r: Result<Vec<u8>, OpenFailure>)
        requires
            old(self).inv(),
            old(self)@.remaining > 0,
            sealed@.len() == old(self)@.next_len(),
        ensures
            final(self).inv(),
            match r {
                Ok(plain) => {
                    &&& old(self)@.next_opened(sealed@) == Some(plain@)
                    &&& final(self)@ == old(self)@.advance(sealed@, plain@)
                },
                Err(failure) => {
                    &&& old(self)@.next_opened(sealed@) is None
                    &&& failure == if old(self)@.remaining <= old(self)@.cap {
                        OpenFailure::Last
                    } else {
                        OpenFailure::Segment
                    }
                    &&& final(self)@ == old(self)@
                },
            },
            ({
                let last = old(self)@.remaining <= old(self)@.cap;
                let opened = opened_segment(
                    old(self)@.key,
                    old(self)@.nonce,
                    old(self)@.run.len() as u32,
                    last,
                    sealed@,
                );
                &&& r is Ok <==> opened is Some && (last || old(self)@.run.len() < 0xFFFF_FFFF)
                &&& r matches Ok(plain) ==> {
                    &&& opened == Some(plain@)
                    &&& final(self)@.remaining == old(self)@.remaining - sealed@.len()
                    &&& final(self)@.run.len() == old(self)@.run.len() + 1
                    &&& final(self)@.run.drop_last() == old(self)@.run
                    &&& plain_of(final(self)@.run) == plain_of(old(self)@.run) + plain@
                    &&& sealed_of(final(self)@.run) == sealed_of(old(self)@.run) + sealed@
                    &&& final(self)@.key == old(self)@.key
                    &&& final(self)@.nonce == old(self)@.nonce
                    &&& final(self)@.cap == old(self)@.cap
                }
            }),
    {
        let last = self.remaining <= self.cap as u64;
        if !last && self.position == u32::MAX {
            return Err(OpenFailure::Segment);
        }
        match open_segment(self.key.as_bytes(), &self.nonce, self.position, last, sealed) {
            Err(_) => Err(if last {
                OpenFailure::Last
            } else {
                OpenFailure::Segment
            }),
            Ok(plain) => {
                let ghost run = self.run@;
                let ghost s = Segment { plain: plain@, sealed: sealed@, last };
                self.remaining = self.remaining - sealed.len() as u64;
                if !last {
                    self.position = self.position + 1;
                }
                self.run = Ghost(run.push(s));
                proof {
                    lemma_push(run, s);
                    assert(self.run@.drop_last() =~= run);
                    assert forall|i: int|
                        #![trigger self.run@[i]]
                        0 <= i < self.run@.len() implies segment_fits(
                        self.key@,
                        self.nonce@,
                        i,
                        self.run@[i],
                    ) && (self.run@[i].last ==> i == self.run@.len() - 1) && (!self.run@[i].last
                        ==> self.run@[i].sealed.len() == self.cap) by {
                        if i < run.len() {
                            assert(self.run@[i] == run[i]);
                        }
                    }
                }
                Ok(plain)
            },
        }
    }
}

} // verus!
