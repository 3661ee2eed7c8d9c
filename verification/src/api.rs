//! The flash interface that a bootloader is given.
//!
//! A bootloader reaches flash through a handful of calls that name a device
//! and answer with a status. The context of those calls, the devices that
//! are in place for the duration of a boot, is an object of its own that
//! whoever runs the bootloader holds and hands to each call.

use crate::area::CAreaDesc;
use crate::flash::{FlashError, FlashState, SimFlash};
use crate::image::{all_wf, SimMultiFlash};
use crate::scenario::{BootOutcome, BootRequest};
use std::collections::HashMap;
use vstd::prelude::*;

verus! {

broadcast use vstd::std_specs::hash::group_hash_axioms;

/// The status of a call that names a device that is not in place.
pub const NO_DEVICE: i32 = -19;

/// What a bootloader asks of a device before it uses it.
#[derive(Copy, Clone, Debug, PartialEq, Eq, Structural)]
pub struct FlashParamsStruct {
    pub align: u16,
    pub erased_val: u8,
}

/// The area table that is in place, if any.
pub struct CAreaDescPtr {
    pub ptr: Option<CAreaDesc>,
}

/// What a boot is run with and what it leaves behind: the budget of flash
/// operations, whether the bootloader jumped out, and the asserts that were
/// caught.
#[derive(Copy, Clone, Debug, PartialEq, Eq, Structural)]
pub struct CSimContext {
    pub flash_counter: i32,
    pub jumped: i32,
    pub c_asserts: u8,
    pub c_catch_asserts: u8,
}

/// The devices, their parameters and the area table that are in place for
/// a boot.
pub struct FlashContext {
    pub flash_map: SimMultiFlash,
    pub flash_params: HashMap<u8, FlashParamsStruct>,
    pub flash_areas: CAreaDescPtr,
}

impl FlashContext {
    /// The devices in place are well formed.
    pub open spec fn wf(&self) -> bool {
        all_wf(self.flash_map@)
    }

    /// A context with nothing in place.
    pub fn new() -> (ctx: FlashContext)
        ensures
            ctx.wf(),
            ctx.flash_map@ == Map::<u8, SimFlash>::empty(),
            ctx.flash_params@ == Map::<u8, FlashParamsStruct>::empty(),
            ctx.flash_areas.ptr is None,
    {
        FlashContext {
            flash_map: HashMap::new(),
            flash_params: HashMap::new(),
            flash_areas: CAreaDescPtr { ptr: None },
        }
    }
}

impl Default for FlashContext {
    fn default() -> (ctx: FlashContext)
        ensures
            ctx.wf(),
            ctx.flash_map@ == Map::<u8, SimFlash>::empty(),
            ctx.flash_params@ == Map::<u8, FlashParamsStruct>::empty(),
            ctx.flash_areas.ptr is None,
    {
        FlashContext::new()
    }
}

/// Set the flash device to be used by the simulation, and take note of its
/// parameters.
pub fn set_flash(ctx: &mut FlashContext, dev_id: u8, dev: SimFlash)
    requires
        old(ctx).wf(),
        dev.wf(),
    ensures
        final(ctx).wf(),
        final(ctx).flash_map@ == old(ctx).flash_map@.insert(dev_id, dev),
        final(ctx).flash_params@ == old(ctx).flash_params@.insert(
            dev_id,
            FlashParamsStruct { align: dev@.align as u16, erased_val: dev@.erased_val },
        ),
        final(ctx).flash_areas == old(ctx).flash_areas,
{
    ctx.flash_params.insert(
        dev_id,
        FlashParamsStruct {
            align: #[verifier::truncate] (dev.align() as u16),
            erased_val: dev.erased_val(),
        },
    );
    ctx.flash_map.insert(dev_id, dev);
}

/// Takes the device `dev_id` out of the context and gives it back. Its
/// parameters stay known.
pub fn clear_flash(ctx: &mut FlashContext, dev_id: u8) -> (dev: Option<SimFlash>)
    requires
        old(ctx).wf(),
    ensures
        final(ctx).wf(),
        final(ctx).flash_map@ == old(ctx).flash_map@.remove(dev_id),
        final(ctx).flash_params == old(ctx).flash_params,
        final(ctx).flash_areas == old(ctx).flash_areas,
        dev == if old(ctx).flash_map@.contains_key(dev_id) {
            Some(old(ctx).flash_map@[dev_id])
        } else {
            None
        },
{
    ctx.flash_map.remove(&dev_id)
}

/// The area table that is in place.
pub fn sim_get_flash_areas(ctx: &FlashContext) -> (areas: &Option<CAreaDesc>)
    ensures
        *areas == ctx.flash_areas.ptr,
{
    &ctx.flash_areas.ptr
}

/// Puts the area table `areas` in place.
pub fn sim_set_flash_areas(ctx: &mut FlashContext, areas: CAreaDesc)
    ensures
        final(ctx).flash_areas.ptr == Some(areas),
        final(ctx).flash_map == old(ctx).flash_map,
        final(ctx).flash_params == old(ctx).flash_params,
{
    ctx.flash_areas.ptr = Some(areas);
}

/// Takes the area table out of the context.
pub fn sim_reset_flash_areas(ctx: &mut FlashContext)
    ensures
        final(ctx).flash_areas.ptr is None,
        final(ctx).flash_map == old(ctx).flash_map,
        final(ctx).flash_params == old(ctx).flash_params,
{
    ctx.flash_areas.ptr = None;
}

/// The status for the result of a flash operation: zero for success, -1 for
/// any failure.
pub fn map_err(err: &Result<(), FlashError>) -> (rc: i32)
    ensures
        rc == (if err is Ok {
            0i32
        } else {
            -1i32
        }),
{
    match err {
        Ok(()) => 0,
        Err(_) => -1,
    }
}

/// Erases `size` bytes at `offset` of device `dev_id`, for the bootloader.
pub fn sim_flash_erase(ctx: &mut FlashContext, dev_id: u8, offset: u32, size: u32) -> (rc: i32)
    requires
        old(ctx).wf(),
    ensures
        final(ctx).wf(),
        final(ctx).flash_map@.dom() == old(ctx).flash_map@.dom(),
        final(ctx).flash_params == old(ctx).flash_params,
        !old(ctx).flash_map@.contains_key(dev_id) ==> rc == NO_DEVICE && final(ctx).flash_map@
            == old(ctx).flash_map@,
        old(ctx).flash_map@.contains_key(dev_id) ==> {
            let before = old(ctx).flash_map@[dev_id]@;
            let after = final(ctx).flash_map@[dev_id]@;
            if before.can_erase(offset as int, size as int) {
                rc == 0 && after == before.erased(offset as int, size as int)
            } else {
                rc == -1 && after == before
            }
        },
{
    let mut rc: i32 = -19;
    match ctx.flash_map.remove(&dev_id) {
        Some(dev) => {
            let mut dev = dev;
            assert(old(ctx).flash_map@[dev_id].wf());
            let done = dev.erase(offset as usize, size as usize);
            rc = map_err(&done);
            ctx.flash_map.insert(dev_id, dev);
            assert(ctx.flash_map@.dom() =~= old(ctx).flash_map@.dom());
        },
        None => {
            assert(ctx.flash_map@ =~= old(ctx).flash_map@);
        },
    }
    rc
}

/// Reads into `dest` the bytes at `offset` of device `dev_id`, for the
/// bootloader.
pub fn sim_flash_read(ctx: &FlashContext, dev_id: u8, offset: u32, dest: &mut [u8]) -> (rc: i32)
    requires
        ctx.wf(),
    ensures
        final(dest)@.len() == old(dest)@.len(),
        !ctx.flash_map@.contains_key(dev_id) ==> rc == NO_DEVICE && final(dest)@ == old(dest)@,
        ctx.flash_map@.contains_key(dev_id) ==> {
            let dev = ctx.flash_map@[dev_id]@;
            if dev.can_read(offset as int, old(dest)@.len() as int) {
                rc == 0 && final(dest)@ == dev.data.subrange(
                    offset as int,
                    offset + old(dest)@.len(),
                )
            } else {
                rc == -1 && final(dest)@ == old(dest)@
            }
        },
{
    match ctx.flash_map.get(&dev_id) {
        Some(dev) => {
            assert(ctx.flash_map@[dev_id].wf());
            let done = dev.read(offset as usize, dest);
            map_err(&done)
        },
        None => -19,
    }
}

/// Writes `src` at `offset` of device `dev_id`, for the bootloader.
///
/// A bootloader that asks for a write that the device cannot perform has a
/// defect: such a write must not be passed on, unless a bad region is
/// certain to fail it.
pub fn sim_flash_write(ctx: &mut FlashContext, dev_id: u8, offset: u32, src: &[u8]) -> (rc: i32)
    requires
        old(ctx).wf(),
        old(ctx).flash_map@.contains_key(dev_id) ==> old(ctx).flash_map@[dev_id]@.can_write(
            offset as int,
            src@.len() as int,
        ) || old(ctx).flash_map@[dev_id]@.must_fail(offset as int, src@.len() as int),
    ensures
        final(ctx).wf(),
        final(ctx).flash_map@.dom() == old(ctx).flash_map@.dom(),
        final(ctx).flash_params == old(ctx).flash_params,
        !old(ctx).flash_map@.contains_key(dev_id) ==> rc == NO_DEVICE && final(ctx).flash_map@
            == old(ctx).flash_map@,
        old(ctx).flash_map@.contains_key(dev_id) ==> {
            let before = old(ctx).flash_map@[dev_id]@;
            let after = final(ctx).flash_map@[dev_id]@;
            &&& rc == 0 || rc == -1
            &&& rc == 0 ==> after == before.written(offset as int, src@)
            &&& rc == -1 ==> after == before && before.may_fail(offset as int, src@.len() as int)
            &&& !before.may_fail(offset as int, src@.len() as int) ==> rc == 0
        },
{
    let mut rc: i32 = -19;
    match ctx.flash_map.remove(&dev_id) {
        Some(dev) => {
            let mut dev = dev;
            assert(old(ctx).flash_map@[dev_id].wf());
            let done = dev.write(offset as usize, src);
            rc = map_err(&done);
            ctx.flash_map.insert(dev_id, dev);
            assert(ctx.flash_map@.dom() =~= old(ctx).flash_map@.dom());
        },
        None => {
            assert(ctx.flash_map@ =~= old(ctx).flash_map@);
        },
    }
    rc
}

/// The write alignment of device `id`, as noted when it was put in place.
pub fn sim_flash_align(ctx: &FlashContext, id: u8) -> (align: u16)
    requires
        ctx.flash_params@.contains_key(id),
    ensures
        align == ctx.flash_params@[id].align,
{
    match ctx.flash_params.get(&id) {
        Some(params) => params.align,
        None => 0,
    }
}

/// The erased value of device `id`, as noted when it was put in place.
pub fn sim_flash_erased_val(ctx: &FlashContext, id: u8) -> (erased_val: u8)
    requires
        ctx.flash_params@.contains_key(id),
    ensures
        erased_val == ctx.flash_params@[id].erased_val,
{
    match ctx.flash_params.get(&id) {
        Some(params) => params.erased_val,
        None => 0,
    }
}

/// What a boot is run with for `request`: the budget, or zero for none; no
/// jump and no assert yet.
pub open spec fn boot_context(request: BootRequest) -> CSimContext {
    CSimContext {
        flash_counter: match request.counter {
            None => 0,
            Some(c) => c,
        },
        jumped: 0,
        c_asserts: 0,
        c_catch_asserts: if request.catch_asserts {
            1
        } else {
            0
        },
    }
}

/// What the boot for `request` is run with.
pub fn boot_context_for(request: &BootRequest) -> (ctx: CSimContext)
    ensures
        ctx == boot_context(*request),
{
    CSimContext {
        flash_counter: match request.counter {
            None => 0,
            Some(c) => c,
        },
        jumped: 0,
        c_asserts: 0,
        c_catch_asserts: if request.catch_asserts {
            1
        } else {
            0
        },
    }
}

/// The outcome of the boot for `request` that returned `result` and left
/// `ctx` behind: the status, the asserts that were caught, and what is left
/// of the budget where there was one.
pub fn boot_go(request: &BootRequest, result: i32, ctx: &CSimContext) -> (outcome: BootOutcome)
    ensures
        outcome == (BootOutcome {
            result,
            asserts: ctx.c_asserts,
            counter: if request.counter is Some {
                ctx.flash_counter
            } else {
                0
            },
        }),
{
    BootOutcome {
        result,
        asserts: ctx.c_asserts,
        counter: match request.counter {
            Some(_) => ctx.flash_counter,
            None => 0,
        },
    }
}

} // verus!
