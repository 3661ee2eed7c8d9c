//! Access to one device among the simulated devices of a configuration.
//!
//! The harness reads, writes and erases where the scenarios tell it to. A
//! step that a device cannot take ends the test: it is reported as the
//! reason to abandon it.

use crate::flash::{FlashState, SimFlash};
use crate::image::{all_wf, only_changed, Abort, SimMultiFlash};
use vstd::prelude::*;

verus! {

broadcast use vstd::std_specs::hash::group_hash_axioms;

/// A write of `len` bytes at `offset` that the harness made on a device in
/// state `dev` can have ended as `done`: with the fault that the device finds
/// in the write, if it finds one; else well, or failed by a bad region that
/// can fail it.
pub open spec fn write_ends<T>(dev: FlashState, offset: int, len: int, done: Result<T, Abort>)
    -> bool {
    match dev.write_fault(offset, len) {
        Some(fault) => done matches Err(e) && e == Abort::Fault(fault),
        None => done is Ok || (done matches Err(e) && e == Abort::SimulatedFail && dev.may_fail(
            offset,
            len,
        )),
    }
}

/// The write alignment and the erased value of device `dev_id`.
pub fn device_params(flash: &SimMultiFlash, dev_id: u8) -> (params: Result<(usize, u8), Abort>)
    requires
        all_wf(flash@),
    ensures
        match params {
            Ok((align, erased)) => flash@.contains_key(dev_id) && align == flash@[dev_id]@.align
                && erased == flash@[dev_id]@.erased_val && align > 0,
            Err(e) => e == Abort::NoDevice && !flash@.contains_key(dev_id),
        },
{
    match flash.get(&dev_id) {
        Some(dev) => {
            assert(flash@[dev_id].wf());
            Ok((dev.align(), dev.erased_val()))
        },
        None => Err(Abort::NoDevice),
    }
}

/// The `len` bytes at `offset` of device `dev_id`.
pub fn read_at(flash: &SimMultiFlash, dev_id: u8, offset: usize, len: usize) -> (read: Result<
    Vec<u8>,
    Abort,
>)
    requires
        all_wf(flash@),
    ensures
        match read {
            Ok(bytes) => flash@.contains_key(dev_id) && flash@[dev_id]@.can_read(
                offset as int,
                len as int,
            ) && bytes@ == flash@[dev_id]@.data.subrange(offset as int, offset + len),
            Err(e) => if flash@.contains_key(dev_id) {
                e == Abort::OutOfBounds && !flash@[dev_id]@.can_read(offset as int, len as int)
            } else {
                e == Abort::NoDevice
            },
        },
{
    let dev = match flash.get(&dev_id) {
        Some(dev) => dev,
        None => {
            return Err(Abort::NoDevice);
        },
    };
    assert(flash@[dev_id].wf());
    let mut copy = vec![0u8; len];
    match dev.read(offset, &mut copy) {
        Ok(()) => Ok(copy),
        Err(_) => Err(Abort::OutOfBounds),
    }
}

/// Writes `payload` at `offset` of device `dev_id`.
///
/// A write that the device cannot perform is not attempted, and reported
/// as the fault it would be; neither is a failure by chance tolerated.
pub fn write_at(flash: &mut SimMultiFlash, dev_id: u8, offset: usize, payload: &[u8]) -> (done:
    Result<(), Abort>)
    requires
        all_wf(old(flash)@),
    ensures
        all_wf(final(flash)@),
        only_changed(old(flash)@, final(flash)@, dev_id),
        match done {
            Ok(()) => old(flash)@.contains_key(dev_id) && old(flash)@[dev_id]@.can_write(
                offset as int,
                payload@.len() as int,
            ) && final(flash)@[dev_id]@ == old(flash)@[dev_id]@.written(offset as int, payload@),
            Err(e) => {
                &&& old(flash)@.contains_key(dev_id) ==> final(flash)@[dev_id]@ == old(
                    flash,
                )@[dev_id]@
                &&& e == Abort::NoDevice <==> !old(flash)@.contains_key(dev_id)
            },
        },
        old(flash)@.contains_key(dev_id) ==> write_ends(
            old(flash)@[dev_id]@,
            offset as int,
            payload@.len() as int,
            done,
        ),
{
    let mut dev = match flash.remove(&dev_id) {
        Some(dev) => dev,
        None => {
            assert(flash@ =~= old(flash)@);
            return Err(Abort::NoDevice);
        },
    };
    assert(old(flash)@[dev_id].wf());
    let ghost before = dev@;
    let done = match dev.write_fault(offset, payload.len()) {
        Some(fault) => Err(Abort::Fault(fault)),
        None => match dev.write(offset, payload) {
            Ok(()) => Ok(()),
            Err(_) => Err(Abort::SimulatedFail),
        },
    };
    flash.insert(dev_id, dev);
    assert(flash@.dom() =~= old(flash)@.dom());
    done
}

/// Erases the `len` bytes at `offset` of device `dev_id`.
pub fn erase_at(flash: &mut SimMultiFlash, dev_id: u8, offset: usize, len: usize) -> (done: Result<
    (),
    Abort,
>)
    requires
        all_wf(old(flash)@),
    ensures
        all_wf(final(flash)@),
        only_changed(old(flash)@, final(flash)@, dev_id),
        match done {
            Ok(()) => old(flash)@.contains_key(dev_id) && old(flash)@[dev_id]@.can_erase(
                offset as int,
                len as int,
            ) && final(flash)@[dev_id]@ == old(flash)@[dev_id]@.erased(offset as int, len as int),
            Err(e) => if old(flash)@.contains_key(dev_id) {
                e == Abort::OutOfBounds && !old(flash)@[dev_id]@.can_erase(offset as int, len as int)
                    && final(flash)@[dev_id]@ == old(flash)@[dev_id]@
            } else {
                e == Abort::NoDevice
            },
        },
{
    let mut dev = match flash.remove(&dev_id) {
        Some(dev) => dev,
        None => {
            assert(flash@ =~= old(flash)@);
            return Err(Abort::NoDevice);
        },
    };
    assert(old(flash)@[dev_id].wf());
    let done = match dev.erase(offset, len) {
        Ok(()) => Ok(()),
        Err(_) => Err(Abort::OutOfBounds),
    };
    flash.insert(dev_id, dev);
    assert(flash@.dom() =~= old(flash)@.dom());
    done
}

/// Whether `a` and `b` hold the same bytes.
pub fn same_bytes(a: &[u8], b: &[u8]) -> (same: bool)
    ensures
        same == (a@ == b@),
{
    if a.len() != b.len() {
        return false;
    }
    let mut i: usize = 0;
    while i < a.len()
        invariant
            i <= a.len(),
            a@.len() == b@.len(),
            forall|j: int| 0 <= j < i ==> a@[j] == b@[j],
        decreases a.len() - i,
    {
        if a[i] != b[i] {
            return false;
        }
        i = i + 1;
    }
    assert(a@ =~= b@);
    true
}

} // verus!
