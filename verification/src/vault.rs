//! What a vault file holds.

use crate::header::{
    ClassicHeaderModel, HeaderModel, CLASSIC_HEADER_SIZE, HEADER_SIZE,
};
use crate::stream::{Segment, TAG_LEN};
use crate::task::{BUFFER_SIZE, CLASSIC_BUFFER_SIZE};
use vstd::prelude::*;

verus! {

/// Sealed bytes of a full segment of a vault.
pub const SEGMENT_SIZE: usize = 262160;

/// Sealed bytes of a full segment of a classic vault.
pub const CLASSIC_SEGMENT_SIZE: usize = 65552;

/// The key that a password comes to under a vault's header.
pub open spec fn vault_key(password: Seq<u8>, h: HeaderModel) -> Result<Seq<u8>, Seq<char>> {
    crate::key::derive_outcome(password, h.salt, h.mem_kib, h.iters, h.parallel)
}

/// The key that a password comes to under a classic vault's header.
pub open spec fn classic_key(password: Seq<u8>, h: ClassicHeaderModel) -> Seq<u8> {
    crate::key::pbkdf2_sha256(password, h.salt, h.iterations)
}

/// What a password reads out of a vault file; `None` when it is not a vault,
/// when no key can be derived, or when a segment does not open.
pub open spec fn vault_contents(password: Seq<u8>, file: Seq<u8>) -> Option<Seq<u8>> {
    if file.len() < HEADER_SIZE || !crate::header::has_magic(file) {
        None
    } else {
        let h = crate::header::header_of(file);
        match vault_key(password, h) {
            Err(_) => None,
            Ok(key) => crate::stream::open_from(
                key,
                h.stream_nonce(),
                0,
                file.skip(HEADER_SIZE as int),
                SEGMENT_SIZE as nat,
            ),
        }
    }
}

/// What a password reads out of a classic vault file.
pub open spec fn classic_contents(password: Seq<u8>, file: Seq<u8>) -> Option<Seq<u8>> {
    if file.len() < CLASSIC_HEADER_SIZE {
        None
    } else {
        let h = crate::header::classic_header_of(file);
        crate::stream::open_from(
            classic_key(password, h),
            h.nonce,
            0,
            file.skip(CLASSIC_HEADER_SIZE as int),
            CLASSIC_SEGMENT_SIZE as nat,
        )
    }
}

/// The vault that a plaintext becomes under a password and a header from which
/// a key can be derived.
pub open spec fn vault_image(password: Seq<u8>, h: HeaderModel, plain: Seq<u8>) -> Seq<u8> {
    h.encoded() + crate::stream::seal_from(
        vault_key(password, h)->Ok_0,
        h.stream_nonce(),
        0,
        plain,
        BUFFER_SIZE as nat,
    )
}

/// The classic vault that a plaintext becomes under a password and a header.
pub open spec fn classic_image(password: Seq<u8>, h: ClassicHeaderModel, plain: Seq<u8>) -> Seq<
    u8,
> {
    h.encoded() + crate::stream::seal_from(
        classic_key(password, h),
        h.nonce,
        0,
        plain,
        CLASSIC_BUFFER_SIZE as nat,
    )
}

/// A header followed by the sealed bytes of an evenly cut run is a vault that
/// holds the plaintext of the run, and the only one under this header.
pub proof fn sealed_vault_holds_its_plaintext(
    password: Seq<u8>,
    h: HeaderModel,
    run: Seq<Segment>,
)
    requires
        h.wf(),
        vault_key(password, h) matches Ok(key) && crate::stream::run_fits(key, h.stream_nonce(), run),
        run.len() > 0 ==> crate::stream::run_ended(run),
        crate::stream::evenly_cut(run, BUFFER_SIZE as nat),
    ensures
        vault_contents(password, h.encoded() + crate::stream::sealed_of(run)) == Some(
            crate::stream::plain_of(run),
        ),
        h.encoded() + crate::stream::sealed_of(run) == vault_image(
            password,
            h,
            crate::stream::plain_of(run),
        ),
{
    let sealed = crate::stream::sealed_of(run);
    let file = h.encoded() + sealed;
    let key = vault_key(password, h)->Ok_0;
    crate::header::header_reads_back(h, sealed);
    assert(file.skip(HEADER_SIZE as int) =~= sealed);
    crate::stream::sealed_run_opens(key, h.stream_nonce(), run, BUFFER_SIZE as nat);
    crate::stream::sealed_run_is_the_sealing(key, h.stream_nonce(), run, BUFFER_SIZE as nat);
}

/// A classic header followed by the sealed bytes of an evenly cut run is a
/// classic vault that holds the plaintext of the run, and the only one under
/// this header.
pub proof fn sealed_classic_vault_holds_its_plaintext(
    password: Seq<u8>,
    h: ClassicHeaderModel,
    run: Seq<Segment>,
)
    requires
        h.wf(),
        crate::stream::run_fits(classic_key(password, h), h.nonce, run),
        run.len() > 0 ==> crate::stream::run_ended(run),
        crate::stream::evenly_cut(run, CLASSIC_BUFFER_SIZE as nat),
    ensures
        classic_contents(password, h.encoded() + crate::stream::sealed_of(run)) == Some(
            crate::stream::plain_of(run),
        ),
        h.encoded() + crate::stream::sealed_of(run) == classic_image(
            password,
            h,
            crate::stream::plain_of(run),
        ),
{
    let sealed = crate::stream::sealed_of(run);
    let file = h.encoded() + sealed;
    crate::header::classic_header_reads_back(h, sealed);
    assert(file.skip(CLASSIC_HEADER_SIZE as int) =~= sealed);
    crate::stream::sealed_run_opens(
        classic_key(password, h),
        h.nonce,
        run,
        CLASSIC_BUFFER_SIZE as nat,
    );
    crate::stream::sealed_run_is_the_sealing(
        classic_key(password, h),
        h.nonce,
        run,
        CLASSIC_BUFFER_SIZE as nat,
    );
}

/// A vault without a payload holds nothing under every password that a key can
/// be derived from: there is no segment whose tag could refuse it.
pub proof fn empty_vault_opens_under_any_password(password: Seq<u8>, h: HeaderModel)
    requires
        h.wf(),
        vault_key(password, h) is Ok,
    ensures
        vault_contents(password, h.encoded()) == Some(Seq::<u8>::empty()),
{
    crate::header::header_reads_back(h, Seq::empty());
    assert(h.encoded() + Seq::<u8>::empty() =~= h.encoded());
}

/// What the payload of a vault is made of: the plaintext is cut into pieces of
/// 262144 bytes, and the piece at index `i` is sealed under counter `i`, the
/// final piece alone with the last flag; the sealed pieces stand in order.
pub proof fn segments_of_a_vault(key: Seq<u8>, nonce: Seq<u8>, run: Seq<Segment>)
    requires
        crate::stream::run_fits(key, nonce, run),
        run.len() > 0 ==> crate::stream::run_ended(run),
        crate::stream::evenly_cut(run, 262144),
    ensures
        ({
            let plain = crate::stream::plain_of(run);
            let payload = crate::stream::sealed_of(run);
            &&& run.len() == (plain.len() + 262143) / 262144
            &&& payload.len() == plain.len() + 16 * ((plain.len() + 262143) / 262144)
            &&& forall|i: int|
                0 <= i && i * 262144 < plain.len() ==> #[trigger] crate::stream::cut(
                    payload,
                    262160,
                    i,
                ) == crate::stream::sealed_segment(
                    key,
                    nonce,
                    i as u32,
                    (i + 1) * 262144 >= plain.len(),
                    crate::stream::cut(plain, 262144, i),
                )
        }),
{
    let plain = crate::stream::plain_of(run);
    let payload = crate::stream::sealed_of(run);
    if run.len() > 0 {
        crate::stream::segments_stand_in_order(key, nonce, run, 262144, run.len() - 1);
    }
    assert forall|i: int| 0 <= i && i * 262144 < plain.len() implies #[trigger] crate::stream::cut(
        payload,
        262160,
        i,
    ) == crate::stream::sealed_segment(
        key,
        nonce,
        i as u32,
        (i + 1) * 262144 >= plain.len(),
        crate::stream::cut(plain, 262144, i),
    ) by {
        crate::stream::segments_stand_in_order(key, nonce, run, 262144, i);
        crate::stream::segments_are_counted(key, nonce, run, i);
        assert(run[run.len() - 1].last);
    }
}

/// What the payload of a classic vault is made of: the plaintext is cut into pieces of
/// 65536 bytes, and the piece at index `i` is sealed under counter `i`, the
/// final piece alone with the last flag; the sealed pieces stand in order.
pub proof fn segments_of_a_classic_vault(key: Seq<u8>, nonce: Seq<u8>, run: Seq<Segment>)
    requires
        crate::stream::run_fits(key, nonce, run),
        run.len() > 0 ==> crate::stream::run_ended(run),
        crate::stream::evenly_cut(run, 65536),
    ensures
        ({
            let plain = crate::stream::plain_of(run);
            let payload = crate::stream::sealed_of(run);
            &&& run.len() == (plain.len() + 65535) / 65536
            &&& payload.len() == plain.len() + 16 * ((plain.len() + 65535) / 65536)
            &&& forall|i: int|
                0 <= i && i * 65536 < plain.len() ==> #[trigger] crate::stream::cut(
                    payload,
                    65552,
                    i,
                ) == crate::stream::sealed_segment(
                    key,
                    nonce,
                    i as u32,
                    (i + 1) * 65536 >= plain.len(),
                    crate::stream::cut(plain, 65536, i),
                )
        }),
{
    let plain = crate::stream::plain_of(run);
    let payload = crate::stream::sealed_of(run);
    if run.len() > 0 {
        crate::stream::segments_stand_in_order(key, nonce, run, 65536, run.len() - 1);
    }
    assert forall|i: int| 0 <= i && i * 65536 < plain.len() implies #[trigger] crate::stream::cut(
        payload,
        65552,
        i,
    ) == crate::stream::sealed_segment(
        key,
        nonce,
        i as u32,
        (i + 1) * 65536 >= plain.len(),
        crate::stream::cut(plain, 65536, i),
    ) by {
        crate::stream::segments_stand_in_order(key, nonce, run, 65536, i);
        crate::stream::segments_are_counted(key, nonce, run, i);
        assert(run[run.len() - 1].last);
    }
}

/// What the payload of a vault gives: it is cut into pieces of 262160 bytes, and
/// the piece at index `i` opens under counter `i`, the final piece alone with
/// the last flag; what they open to stands in order.
pub proof fn opening_of_a_vault(key: Seq<u8>, nonce: Seq<u8>, run: Seq<Segment>)
    requires
        crate::stream::run_fits(key, nonce, run),
        run.len() > 0 ==> crate::stream::run_ended(run) && 0 < run.last().sealed.len() <= 262160,
        forall|i: int|
            #![trigger run[i]]
            0 <= i < run.len() && !run[i].last ==> run[i].sealed.len() == 262160,
    ensures
        ({
            let plain = crate::stream::plain_of(run);
            let payload = crate::stream::sealed_of(run);
            &&& run.len() == (payload.len() + 262159) / 262160
            &&& plain.len() == payload.len() - 16 * ((payload.len() + 262159) / 262160)
            &&& forall|i: int|
                0 <= i && i * 262160 < payload.len() ==> crate::stream::opened_segment(
                    key,
                    nonce,
                    i as u32,
                    (i + 1) * 262160 >= payload.len(),
                    #[trigger] crate::stream::cut(payload, 262160, i),
                ) == Some(crate::stream::cut(plain, 262144, i))
        }),
{
    let plain = crate::stream::plain_of(run);
    let payload = crate::stream::sealed_of(run);
    assert forall|i: int| #![trigger run[i]] 0 <= i < run.len() implies run[i].sealed.len()
        == run[i].plain.len() + 16 && (i < run.len() - 1 ==> run[i].plain.len() == 262144) by {
        crate::stream::segments_are_counted(key, nonce, run, i);
    }
    if run.len() > 0 {
        assert(run.last() == run[run.len() - 1]);
        crate::stream::segments_stand_in_order(key, nonce, run, 262144, run.len() - 1);
    }
    assert forall|i: int| 0 <= i && i * 262160 < payload.len() implies crate::stream::opened_segment(
        key,
        nonce,
        i as u32,
        (i + 1) * 262160 >= payload.len(),
        #[trigger] crate::stream::cut(payload, 262160, i),
    ) == Some(crate::stream::cut(plain, 262144, i)) by {
        crate::stream::segments_stand_in_order(key, nonce, run, 262144, i);
        crate::stream::segments_are_counted(key, nonce, run, i);
    }
}

/// What the payload of a classic vault gives: it is cut into pieces of 65552 bytes, and
/// the piece at index `i` opens under counter `i`, the final piece alone with
/// the last flag; what they open to stands in order.
pub proof fn opening_of_a_classic_vault(key: Seq<u8>, nonce: Seq<u8>, run: Seq<Segment>)
    requires
        crate::stream::run_fits(key, nonce, run),
        run.len() > 0 ==> crate::stream::run_ended(run) && 0 < run.last().sealed.len() <= 65552,
        forall|i: int|
            #![trigger run[i]]
            0 <= i < run.len() && !run[i].last ==> run[i].sealed.len() == 65552,
    ensures
        ({
            let plain = crate::stream::plain_of(run);
            let payload = crate::stream::sealed_of(run);
            &&& run.len() == (payload.len() + 65551) / 65552
            &&& plain.len() == payload.len() - 16 * ((payload.len() + 65551) / 65552)
            &&& forall|i: int|
                0 <= i && i * 65552 < payload.len() ==> crate::stream::opened_segment(
                    key,
                    nonce,
                    i as u32,
                    (i + 1) * 65552 >= payload.len(),
                    #[trigger] crate::stream::cut(payload, 65552, i),
                ) == Some(crate::stream::cut(plain, 65536, i))
        }),
{
    let plain = crate::stream::plain_of(run);
    let payload = crate::stream::sealed_of(run);
    assert forall|i: int| #![trigger run[i]] 0 <= i < run.len() implies run[i].sealed.len()
        == run[i].plain.len() + 16 && (i < run.len() - 1 ==> run[i].plain.len() == 65536) by {
        crate::stream::segments_are_counted(key, nonce, run, i);
    }
    if run.len() > 0 {
        assert(run.last() == run[run.len() - 1]);
        crate::stream::segments_stand_in_order(key, nonce, run, 65536, run.len() - 1);
    }
    assert forall|i: int| 0 <= i && i * 65552 < payload.len() implies crate::stream::opened_segment(
        key,
        nonce,
        i as u32,
        (i + 1) * 65552 >= payload.len(),
        #[trigger] crate::stream::cut(payload, 65552, i),
    ) == Some(crate::stream::cut(plain, 65536, i)) by {
        crate::stream::segments_stand_in_order(key, nonce, run, 65536, i);
        crate::stream::segments_are_counted(key, nonce, run, i);
    }
}

} // verus!
