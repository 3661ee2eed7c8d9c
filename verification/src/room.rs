//! What a write leaves as it was: ranges of bytes that lie apart.

use crate::flash::{first_programmed, FlashState};
use vstd::prelude::*;

verus! {

/// The `len` bytes at `off` and the `other_len` bytes at `other_off` have
/// no byte in common.
pub open spec fn apart(off: int, len: int, other_off: int, other_len: int) -> bool {
    off + len <= other_off || other_off + other_len <= off
}

/// For the `len` bytes at `off`, the device in state `after` is as it was
/// in state `before`: it holds the same bytes there, and a write or a read
/// of them ends in the same way.
pub open spec fn same_there(before: FlashState, after: FlashState, off: int, len: int) -> bool {
    &&& after.align == before.align
    &&& after.erased_val == before.erased_val
    &&& after.data.len() == before.data.len()
    &&& after.write_fault(off, len) == before.write_fault(off, len)
    &&& after.may_fail(off, len) == before.may_fail(off, len)
    &&& before.can_read(off, len) ==> after.data.subrange(off, off + len) == before.data.subrange(
        off,
        off + len,
    )
}

/// Two maps of programmable bytes that agree from `from` up to `to` have
/// their first programmed byte there at the same place.
pub proof fn lemma_first_programmed_same(a: Seq<bool>, b: Seq<bool>, from: int, to: int)
    requires
        forall|i: int| from <= i < to ==> a[i] == b[i],
    ensures
        first_programmed(a, from, to) == first_programmed(b, from, to),
    decreases to - from,
{
    if from < to {
        lemma_first_programmed_same(a, b, from + 1, to);
    }
}

/// A write leaves the device as it was for every range of bytes that lies
/// apart from what is written.
pub proof fn lemma_written_apart(dev: FlashState, at: int, payload: Seq<u8>, off: int, len: int)
    requires
        dev.wf(),
        0 <= off,
        0 <= len,
        apart(at, payload.len() as int, off, len),
    ensures
        same_there(dev, dev.written(at, payload), off, len),
{
    let after = dev.written(at, payload);
    assert(after.bad_regions == dev.bad_regions);
    if off + len <= dev.data.len() {
        assert forall|i: int| off <= i < off + len implies after.write_safe[i]
            == dev.write_safe[i] by {}
        lemma_first_programmed_same(after.write_safe, dev.write_safe, off, off + len);
        assert(after.data.subrange(off, off + len) =~= dev.data.subrange(off, off + len));
    }
}

/// After a write that fits the device, the device holds what was written
/// where it was written.
pub proof fn lemma_written_there(dev: FlashState, at: int, payload: Seq<u8>)
    requires
        0 <= at,
        at + payload.len() <= dev.data.len(),
    ensures
        dev.written(at, payload).data.subrange(at, at + payload.len()) == payload,
        dev.written(at, payload).can_read(at, payload.len() as int),
{
    assert(dev.written(at, payload).data.subrange(at, at + payload.len()) =~= payload);
}

/// What is the same for a range after one change and again after another
/// is the same after both.
pub proof fn lemma_same_there_twice(
    first: FlashState,
    second: FlashState,
    third: FlashState,
    off: int,
    len: int,
)
    requires
        same_there(first, second, off, len),
        same_there(second, third, off, len),
    ensures
        same_there(first, third, off, len),
{
}

} // verus!
