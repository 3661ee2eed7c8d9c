//! Building the images of a configuration: the devices, the slots on them,
//! and what is installed in the slots before a scenario begins.

use crate::area::{AreaDesc, AreaMap, FlashArea, FlashId};
use crate::caps::{BootInfo, Caps};
use crate::checks::{
    image_checkable, image_found, lemma_changed_state, states, upgrades_marked, Images, OneImage,
};
use crate::depends::{
    no_deps, pair_deps, plain_test, synthetic_version, version_slot, BoringDep, DepTest, DepType,
    Depender, PairDep,
};
use crate::device::{make_device, unsupported_caps, DeviceName, Layout};
use crate::flash::{is_pow2, FlashState};
use crate::image::{
    all_wf, dependencies_on, install_no_image, pad_to, padded, Abort, ImageData, ImageVersion,
    SimMultiFlash, SlotInfo, WrappedKey,
};
use crate::install::{
    areas_on, bare_span, device_table, image_made, image_makeable, install_image, mark_upgrade,
    partition_table, same_kind, table_collides, takes_bare, upgrade_mark, verify_image,
};
use crate::room::{
    apart, lemma_same_there_twice, lemma_written_apart, lemma_written_there, same_there,
};
use crate::multiflash::{device_params, write_at, write_ends};
use crate::tlv::{Dependency, KeyRing, MAX_DEPENDENCIES};
use vstd::prelude::*;

verus! {

broadcast use vstd::std_specs::hash::group_hash_axioms;

/// Why no images can be built for a configuration.
#[derive(Copy, Clone, Debug, PartialEq, Eq, Structural)]
pub enum BuildError {
    /// The bootloader has a capability that cannot be tested on the device.
    Unsupported(Caps),
    /// The device lacks a slot for one of the bootloader's images.
    InsufficientPartitions,
    /// A slot is too small to hold a trailer.
    BadSlot,
}

/// A builder for Images.  This describes a single run of the simulator,
/// capturing the configuration of a particular set of devices, including
/// the flash simulator(s) and the information about the slots.
pub struct ImagesBuilder {
    pub flash: SimMultiFlash,
    pub areadesc: AreaDesc,
    pub slots: Vec<[SlotInfo; 2]>,
}

/// The partition that holds the primary slot of image `image`.
pub open spec fn primary_id(image: int) -> FlashId {
    if image == 0 {
        FlashId::Image0
    } else {
        FlashId::Image2
    }
}

/// The partition that holds the secondary slot of image `image`.
pub open spec fn secondary_id(image: int) -> FlashId {
    if image == 0 {
        FlashId::Image1
    } else {
        FlashId::Image3
    }
}

/// The distance from the end of a slot at which the part of its trailer
/// begins that the tests look at: the magic and four fields before it.
pub open spec fn offset_from_end(info: BootInfo) -> int {
    info.magic_sz + info.max_align * 4
}

/// The slot with index `index` in the partition `id` of `table`, if there is
/// such a partition and it can hold a trailer.
#[verifier::opaque]
pub open spec fn slot_in(table: AreaMap, id: FlashId, index: usize, info: BootInfo) -> Option<
    SlotInfo,
> {
    match table.first_slot(id) {
        Some(i) => {
            let area = table.whole[i];
            if offset_from_end(info) <= area.off + area.size <= usize::MAX {
                Some(
                    SlotInfo {
                        base_off: area.off as usize,
                        trailer_off: (area.off + area.size - offset_from_end(info)) as usize,
                        len: area.size as usize,
                        index,
                        dev_id: area.device_id,
                    },
                )
            } else {
                None
            }
        },
        None => None,
    }
}

/// `slots` are the slots of image `image` in `table`: the primary slot,
/// with index 0, and the secondary slot, with index 1.
pub open spec fn slots_placed(table: AreaMap, image: int, slots: [SlotInfo; 2], info: BootInfo)
    -> bool {
    &&& slot_in(table, primary_id(image), 0, info) == Some(slots[0])
    &&& slot_in(table, secondary_id(image), 1, info) == Some(slots[1])
    &&& slots[0].index == 0
    &&& slots[1].index == 1
}

/// Image `image` has its two slots in `table`, each large enough for a
/// trailer.
pub open spec fn placeable(table: AreaMap, image: int, info: BootInfo) -> bool {
    slot_in(table, primary_id(image), 0, info) is Some && slot_in(
        table,
        secondary_id(image),
        1,
        info,
    ) is Some
}

/// The first of `slots` has index 0 and the second has index 1.
pub open spec fn indexed(slots: [SlotInfo; 2]) -> bool {
    slots[0].index == 0 && slots[1].index == 1
}

/// The first of `caps` that is in the set `set`, if any.
pub open spec fn first_present(caps: Seq<Caps>, set: u32) -> Option<Caps>
    decreases caps.len(),
{
    if caps.len() == 0 {
        None
    } else if caps[0].in_set(set) {
        Some(caps[0])
    } else {
        first_present(caps.skip(1), set)
    }
}

impl ImagesBuilder {
    /// The devices and the table are well formed, there are two images at
    /// most, and each image has a primary slot, with index 0, and a
    /// secondary slot, with index 1.
    pub open spec fn wf(&self) -> bool {
        &&& all_wf(self.flash@)
        &&& self.areadesc.wf()
        &&& self.areadesc@.whole.len() <= u32::MAX
        &&& self.slots@.len() <= 2
        &&& forall|k: int|
            0 <= k < self.slots@.len() ==> indexed(#[trigger] self.slots@[k])
    }

    /// Construct a new image builder for the given device.  Returns
    /// the builder if is possible to test this configuration, or the reason
    /// why it is not possible (for example, if there aren't enough image
    /// slots).
    pub fn new(device: DeviceName, align: usize, erased_val: u8, info: &BootInfo) -> (built:
        Result<ImagesBuilder, BuildError>)
        requires
            is_pow2(align),
            info.wf(),
        ensures
            match built {
                Ok(builder) => {
                    &&& builder.wf()
                    &&& first_present(unsupported_caps(device), info.caps) is None
                    &&& states(builder.flash@) == crate::device::device_sizes(device).map_values(
                        |sizes: Seq<usize>| crate::device::fresh_device(sizes, align, erased_val),
                    )
                    &&& builder.areadesc@ == crate::device::device_layout(device)
                    &&& builder.slots@.len() == info.num_images
                    &&& forall|k: int|
                        0 <= k < info.num_images ==> slots_placed(
                            builder.areadesc@,
                            k,
                            #[trigger] builder.slots@[k],
                            *info,
                        )
                },
                Err(BuildError::Unsupported(cap)) => first_present(
                    unsupported_caps(device),
                    info.caps,
                ) == Some(cap),
                Err(_) => first_present(unsupported_caps(device), info.caps) is None,
            },
            first_present(unsupported_caps(device), info.caps) is None ==> (built is Ok <==> (
            forall|k: int|
                0 <= k < info.num_images ==> #[trigger] placeable(
                    crate::device::device_layout(device),
                    k,
                    *info,
                )) && crate::device::device_layout(device).whole.len() <= u32::MAX),
    {
        let made = make_device(device, align, erased_val);
        assert(made.unsupported@.skip(0) =~= made.unsupported@);
        let mut c: usize = 0;
        while c < made.unsupported.len()
            invariant
                c <= made.unsupported.len(),
                made.unsupported@ == unsupported_caps(device),
                first_present(made.unsupported@, info.caps) == first_present(
                    made.unsupported@.skip(c as int),
                    info.caps,
                ),
            decreases made.unsupported.len() - c,
        {
            let cap = made.unsupported[c];
            assert(made.unsupported@.skip(c as int)[0] == cap);
            assert(made.unsupported@.skip(c as int).skip(1) =~= made.unsupported@.skip(c + 1));
            if cap.present(info.caps) {
                return Err(BuildError::Unsupported(cap));
            }
            c = c + 1;
        }
        assert(first_present(unsupported_caps(device), info.caps) is None);
        let num_images = info.num_images;
        let mut slots: Vec<[SlotInfo; 2]> = Vec::new();
        let mut image: usize = 0;
        while image < num_images
            invariant
                image <= num_images,
                num_images == info.num_images,
                first_present(unsupported_caps(device), info.caps) is None,
                info.wf(),
                made.areadesc.wf(),
                made.areadesc@ == crate::device::device_layout(device),
                slots@.len() == image,
                forall|k: int|
                    0 <= k < image ==> slots_placed(made.areadesc@, k, #[trigger] slots@[k], *info),
                forall|k: int| 0 <= k < image ==> #[trigger] placeable(made.areadesc@, k, *info),
            decreases num_images - image,
        {
            let pair = match image_slots(&made.areadesc, image, info) {
                Ok(pair) => pair,
                Err(e) => {
                    assert(!placeable(made.areadesc@, image as int, *info));
                    return Err(e);
                },
            };
            slots.push(pair);
            image = image + 1;
        }
        if made.areadesc.iter_areas().len() > 0xffff_ffff {
            return Err(BuildError::BadSlot);
        }
        Ok(ImagesBuilder { flash: made.flash, areadesc: made.areadesc, slots })
    }

    /// Build the Flash and area descriptor for a given device.
    pub fn make_device(device: DeviceName, align: usize, erased_val: u8) -> (made: Layout)
        requires
            is_pow2(align),
        ensures
            made.fits(device, align, erased_val),
    {
        make_device(device, align, erased_val)
    }

    /// The number of images that the builder has slots for.
    pub fn num_images(&self) -> (n: usize)
        ensures
            n == self.slots@.len(),
    {
        self.slots.len()
    }
}

/// The two slots of image `image` in `areadesc`.
pub fn image_slots(areadesc: &AreaDesc, image: usize, info: &BootInfo) -> (placed: Result<
    [SlotInfo; 2],
    BuildError,
>)
    requires
        info.wf(),
    ensures
        placed matches Ok(slots) ==> slots_placed(areadesc@, image as int, slots, *info),
        placed matches Err(e) ==> !(e is Unsupported),
        placed is Ok <==> placeable(areadesc@, image as int, *info),
{
    // This mapping must match that defined in
    // `boot/zephyr/include/sysflash/sysflash.h`.
    let id0 = if image == 0 {
        FlashId::Image0
    } else {
        FlashId::Image2
    };
    let id1 = if image == 0 {
        FlashId::Image1
    } else {
        FlashId::Image3
    };
    let primary = match place_slot(areadesc, id0, 0, info) {
        Ok(slot) => slot,
        Err(e) => {
            return Err(e);
        },
    };
    let secondary = match place_slot(areadesc, id1, 1, info) {
        Ok(slot) => slot,
        Err(e) => {
            return Err(e);
        },
    };
    let slots = [primary, secondary];
    assert(slots[0] == primary);
    assert(slots[1] == secondary);
    assert(id0 == primary_id(image as int));
    assert(id1 == secondary_id(image as int));
    assert(slot_in(areadesc@, primary_id(image as int), 0, *info) == Some(slots[0]));
    assert(slot_in(areadesc@, secondary_id(image as int), 1, *info) == Some(slots[1]));
    Ok(slots)
}

/// The slot with index `index` in the partition `id` of `areadesc`.
pub fn place_slot(areadesc: &AreaDesc, id: FlashId, index: usize, info: &BootInfo) -> (placed:
    Result<SlotInfo, BuildError>)
    requires
        info.wf(),
    ensures
        match placed {
            Ok(slot) => slot_in(areadesc@, id, index, *info) == Some(slot) && slot.index == index,
            Err(e) => slot_in(areadesc@, id, index, *info) is None && e == (if areadesc@.first_slot(
                id,
            ) is None {
                BuildError::InsufficientPartitions
            } else {
                BuildError::BadSlot
            }),
        },
{
    reveal(slot_in);
    let (base, len, dev_id) = match areadesc.find(id) {
        Some(info) => info,
        None => {
            return Err(BuildError::InsufficientPartitions);
        },
    };
    let from_end = info.magic_sz + info.max_align * 4;
    if len > usize::MAX - base || base + len < from_end {
        return Err(BuildError::BadSlot);
    }
    Ok(SlotInfo { base_off: base, trailer_off: base + len - from_end, len, dev_id, index })
}

/// The ids of the devices that the areas `areas` lie on, each once, in the
/// order in which they first appear.
pub open spec fn device_ids(areas: Seq<FlashArea>) -> Seq<u8>
    decreases areas.len(),
{
    if areas.len() == 0 {
        Seq::empty()
    } else if device_ids(areas.drop_last()).contains(areas.last().device_id) {
        device_ids(areas.drop_last())
    } else {
        device_ids(areas.drop_last()).push(areas.last().device_id)
    }
}

/// The devices after the partition table of device `id` has been written to
/// its start, unless the table would collide with a partition there.
pub open spec fn table_installed(areas: Seq<FlashArea>, id: u8, devices: Map<u8, FlashState>)
    -> Map<u8, FlashState> {
    if table_collides(areas, id) {
        devices
    } else {
        devices.insert(id, devices[id].written(0, padded_table(areas, id, devices[id].align)))
    }
}

/// The devices after a partition table has been written to the start of
/// each of the devices `ids`, in order, but for those on which the table
/// would collide with a partition.
#[verifier::opaque]
pub open spec fn tables_installed(
    ids: Seq<u8>,
    areas: Seq<FlashArea>,
    devices: Map<u8, FlashState>,
) -> Map<u8, FlashState>
    decreases ids.len(),
{
    if ids.len() == 0 {
        devices
    } else {
        tables_installed(ids.skip(1), areas, table_installed(areas, ids[0], devices))
    }
}

/// What `tables_installed` comes to: nothing is written where there is no
/// device left; else the first device gets its table, if it has room for
/// one, and the others follow.
pub proof fn lemma_tables_step(ids: Seq<u8>, areas: Seq<FlashArea>, devices: Map<u8, FlashState>)
    ensures
        tables_installed(ids, areas, devices) == (if ids.len() == 0 {
            devices
        } else {
            tables_installed(ids.skip(1), areas, table_installed(areas, ids[0], devices))
        }),
{
    reveal(tables_installed);
}

/// The partition table of device `id` as it is written to a device of
/// write alignment `align`: filled up with zeros to a multiple of it.
pub open spec fn padded_table(areas: Seq<FlashArea>, id: u8, align: usize) -> Seq<u8> {
    padded(partition_table(areas_on(areas, id)), align as nat, 0)
}

/// Writing the partition table of device `id` to a device in state `dev`
/// can have ended as `done`: as an overflow where the padded table cannot
/// be held, and else as the write of it to the start of the device ends.
pub open spec fn table_ends(dev: FlashState, areas: Seq<FlashArea>, id: u8, done: Result<bool, Abort>)
    -> bool {
    if partition_table(areas_on(areas, id)).len() + dev.align > usize::MAX {
        done matches Err(e) && e == Abort::Overflow
    } else {
        &&& write_ends(dev, 0, padded_table(areas, id, dev.align).len() as int, done)
        &&& done matches Ok(written) ==> written
    }
}

/// A device in state `dev` has room for the partition table of device `id`
/// at its start; with `surely`, no bad region can fail the write either.
pub open spec fn table_fits(dev: FlashState, areas: Seq<FlashArea>, id: u8, surely: bool) -> bool {
    &&& partition_table(areas_on(areas, id)).len() + dev.align <= usize::MAX
    &&& dev.can_write(0, padded_table(areas, id, dev.align).len() as int)
    &&& surely ==> !dev.may_fail(0, padded_table(areas, id, dev.align).len() as int)
}

/// Each of the devices `ids` on which the table would not collide with a
/// partition is among `devices` and has room for its partition table, once
/// the devices before it have theirs; with `surely`, no bad region can fail
/// one of the writes either.
#[verifier::opaque]
pub open spec fn tables_fit(
    ids: Seq<u8>,
    areas: Seq<FlashArea>,
    devices: Map<u8, FlashState>,
    surely: bool,
) -> bool
    decreases ids.len(),
{
    ids.len() == 0 || {
        &&& table_collides(areas, ids[0]) || (devices.contains_key(ids[0]) && table_fits(
            devices[ids[0]],
            areas,
            ids[0],
            surely,
        ))
        &&& tables_fit(ids.skip(1), areas, table_installed(areas, ids[0], devices), surely)
    }
}

/// What `tables_fit` comes to: it holds where there is no device left;
/// else the first device gets no table or is there and has room for it, and
/// the others follow.
pub proof fn lemma_tables_fit_step(
    ids: Seq<u8>,
    areas: Seq<FlashArea>,
    devices: Map<u8, FlashState>,
    surely: bool,
)
    ensures
        tables_fit(ids, areas, devices, surely) == (ids.len() == 0 || ((table_collides(
            areas,
            ids[0],
        ) || (devices.contains_key(ids[0]) && table_fits(devices[ids[0]], areas, ids[0], surely)))
            && tables_fit(ids.skip(1), areas, table_installed(areas, ids[0], devices), surely))),
{
    reveal(tables_fit);
}

/// No device is named twice among the devices that `areas` lie on.
pub proof fn lemma_device_ids_distinct(areas: Seq<FlashArea>)
    ensures
        device_ids(areas).no_duplicates(),
    decreases areas.len(),
{
    if areas.len() > 0 {
        lemma_device_ids_distinct(areas.drop_last());
    }
}

/// For the partition table of device `id`, a device in state `after` is as
/// it was in state `before`: it has the same write alignment, and the
/// write of the table ends in the same way.
pub open spec fn table_same(before: FlashState, after: FlashState, areas: Seq<FlashArea>, id: u8)
    -> bool {
    same_there(before, after, 0, padded_table(areas, id, before.align).len() as int)
}

/// Devices that have room for their partition tables have room for them
/// in every state in which each is as it was for its table.
pub proof fn lemma_tables_fit_same(
    ids: Seq<u8>,
    areas: Seq<FlashArea>,
    before: Map<u8, FlashState>,
    after: Map<u8, FlashState>,
    surely: bool,
)
    requires
        ids.no_duplicates(),
        tables_fit(ids, areas, before, surely),
        forall|i: int|
            0 <= i < ids.len() ==> before.contains_key(#[trigger] ids[i]) == after.contains_key(
                ids[i],
            ) && (before.contains_key(ids[i]) && !table_collides(areas, ids[i]) ==> table_same(
                before[ids[i]],
                after[ids[i]],
                areas,
                ids[i],
            )),
    ensures
        tables_fit(ids, areas, after, surely),
    decreases ids.len(),
{
    lemma_tables_fit_step(ids, areas, before, surely);
    lemma_tables_fit_step(ids, areas, after, surely);
    if ids.len() > 0 {
        let first = ids[0];
        let rest = ids.skip(1);
        let before_next = table_installed(areas, first, before);
        let after_next = table_installed(areas, first, after);
        if !table_collides(areas, first) {
            assert(before.contains_key(ids[0]));
            assert(table_same(before[first], after[first], areas, first));
        }
        assert forall|i: int| 0 <= i < rest.len() implies before_next.contains_key(
            #[trigger] rest[i],
        ) == after_next.contains_key(rest[i]) && (before_next.contains_key(rest[i])
            && !table_collides(areas, rest[i]) ==> table_same(
            before_next[rest[i]],
            after_next[rest[i]],
            areas,
            rest[i],
        )) by {
            assert(rest[i] == ids[i + 1]);
            assert(ids[i + 1] != ids[0]);
        }
        lemma_tables_fit_same(rest, areas, before_next, after_next, surely);
    }
}

/// Devices that have got their partition tables have their lengths and
/// their write alignments as before.
pub proof fn lemma_tables_shape(ids: Seq<u8>, areas: Seq<FlashArea>, devices: Map<u8, FlashState>)
    requires
        tables_fit(ids, areas, devices, false),
    ensures
        same_shape(devices, tables_installed(ids, areas, devices)),
    decreases ids.len(),
{
    lemma_tables_fit_step(ids, areas, devices, false);
    lemma_tables_step(ids, areas, devices);
    if ids.len() > 0 {
        let next = table_installed(areas, ids[0], devices);
        assert(next.dom() =~= devices.dom());
        lemma_tables_shape(ids.skip(1), areas, next);
    }
}

/// The `len` bytes at `off` of device `id` lie apart from the partition
/// table of the device, if it gets one.
pub open spec fn clear_of_tables(
    ids: Seq<u8>,
    areas: Seq<FlashArea>,
    devices: Map<u8, FlashState>,
    id: u8,
    off: int,
    len: int,
) -> bool {
    ids.contains(id) && !table_collides(areas, id) ==> apart(
        0,
        padded_table(areas, id, devices[id].align).len() as int,
        off,
        len,
    )
}

/// The partition tables leave a device as it was for every range of bytes
/// that lies apart from the table of the device.
pub proof fn lemma_tables_apart(
    ids: Seq<u8>,
    areas: Seq<FlashArea>,
    devices: Map<u8, FlashState>,
    id: u8,
    off: int,
    len: int,
)
    requires
        devices.contains_key(id),
        devices[id].wf(),
        0 <= off,
        0 <= len,
        clear_of_tables(ids, areas, devices, id, off, len),
    ensures
        same_there(devices[id], tables_installed(ids, areas, devices)[id], off, len),
    decreases ids.len(),
{
    lemma_tables_step(ids, areas, devices);
    if ids.len() > 0 {
        let first = ids[0];
        let rest = ids.skip(1);
        let next = table_installed(areas, first, devices);
        if first == id && !table_collides(areas, first) {
            assert(ids.contains(id));
            lemma_written_apart(
                devices[id],
                0,
                padded_table(areas, first, devices[first].align),
                off,
                len,
            );
        }
        assert(same_there(devices[id], next[id], off, len));
        assert(clear_of_tables(rest, areas, next, id, off, len)) by {
            if rest.contains(id) {
                let i = choose|i: int| 0 <= i < rest.len() && rest[i] == id;
                assert(ids[i + 1] == id);
            }
        }
        lemma_tables_apart(rest, areas, next, id, off, len);
        lemma_same_there_twice(
            devices[id],
            next[id],
            tables_installed(rest, areas, next)[id],
            off,
            len,
        );
    }
}

/// The ids of the devices that `areas` lie on; see `device_ids`.
pub fn listed_devices(areas: &Vec<FlashArea>) -> (ids: Vec<u8>)
    ensures
        ids@ == device_ids(areas@),
{
    let mut ids: Vec<u8> = Vec::new();
    let mut i: usize = 0;
    while i < areas.len()
        invariant
            i <= areas.len(),
            ids@ == device_ids(areas@.take(i as int)),
        decreases areas.len() - i,
    {
        let id = areas[i].device_id;
        let mut seen = false;
        let mut k: usize = 0;
        while k < ids.len()
            invariant
                k <= ids.len(),
                seen == ids@.take(k as int).contains(id),
            decreases ids.len() - k,
        {
            if ids[k] == id {
                seen = true;
            }
            proof {
                let now = ids@.take(k + 1);
                assert(now.drop_last() =~= ids@.take(k as int));
                if ids@.take(k as int).contains(id) {
                    let w = choose|w: int| 0 <= w < k && ids@.take(k as int)[w] == id;
                    assert(now[w] == id);
                }
                if ids@[k as int] == id {
                    assert(now[k as int] == id);
                }
            }
            k = k + 1;
        }
        proof {
            assert(ids@.take(ids@.len() as int) =~= ids@);
            assert(areas@.take(i + 1).drop_last() =~= areas@.take(i as int));
        }
        if !seen {
            ids.push(id);
        }
        i = i + 1;
    }
    assert(areas@.take(areas@.len() as int) =~= areas@);
    ids
}

/// Writes the partition table of device `id` to its start, unless it would
/// collide with a partition there. Returns whether it was written.
///
/// Where the table would collide nothing is written, whether the device is
/// there or not. Else the device must be there, and the outcome is that of
/// the write of the padded table. After an error the devices are as before.
pub fn install_table(flash: &mut SimMultiFlash, areas: &Vec<FlashArea>, id: u8) -> (done: Result<
    bool,
    Abort,
>)
    requires
        all_wf(old(flash)@),
        areas@.len() <= u32::MAX,
    ensures
        all_wf(final(flash)@),
        final(flash)@.dom() == old(flash)@.dom(),
        done matches Ok(written) ==> written == !table_collides(areas@, id) && states(
            final(flash)@,
        ) == table_installed(areas@, id, states(old(flash)@)),
        done is Err ==> states(final(flash)@) == states(old(flash)@),
        if table_collides(areas@, id) {
            done == Ok::<bool, Abort>(false)
        } else if old(flash)@.contains_key(id) {
            table_ends(states(old(flash)@)[id], areas@, id, done)
        } else {
            done == Err::<bool, Abort>(Abort::NoDevice)
        },
{
    let mut buf = match device_table(areas, id) {
        Some(table) => table,
        None => {
            return Ok(false);
        },
    };
    let (align, _) = device_params(flash, id)?;
    if buf.len() > usize::MAX - align {
        return Err(Abort::Overflow);
    }
    // Pad to alignment.
    pad_to(&mut buf, align, 0);
    let ghost before = flash@;
    match write_at(flash, id, 0, buf.as_slice()) {
        Ok(()) => {
            proof {
                lemma_changed_state(before, flash@, id);
            }
            Ok(true)
        },
        Err(e) => {
            assert(states(flash@) =~= states(before));
            Err(e)
        },
    }
}

/// Install a partition table.  This is a simplified partition table that
/// we write at the beginning of flash so make it easier for external tools
/// to analyze these images.
///
/// The devices are taken in the order in which the table of areas first
/// names them. A device on which a partition that is not the bootloader's
/// begins at offset zero gets no table; the others each get theirs.
///
/// The tables are installed where each device that gets one is there and
/// has room for it and no bad region can fail the write, and only where
/// each is there and has room.
pub fn install_ptable(flash: &mut SimMultiFlash, areadesc: &AreaDesc) -> (done: Result<(), Abort>)
    requires
        all_wf(old(flash)@),
        areadesc@.whole.len() <= u32::MAX,
    ensures
        all_wf(final(flash)@),
        final(flash)@.dom() == old(flash)@.dom(),
        done is Ok ==> states(final(flash)@) == tables_installed(
            device_ids(areadesc@.whole),
            areadesc@.whole,
            states(old(flash)@),
        ),
        tables_fit(device_ids(areadesc@.whole), areadesc@.whole, states(old(flash)@), true)
            ==> done is Ok,
        done is Ok ==> tables_fit(
            device_ids(areadesc@.whole),
            areadesc@.whole,
            states(old(flash)@),
            false,
        ),
{
    let areas = areadesc.iter_areas();
    let ids = listed_devices(areas);
    assert(ids@.skip(0) =~= ids@);
    let mut i: usize = 0;
    while i < ids.len()
        invariant
            i <= ids.len(),
            ids@ == device_ids(areadesc@.whole),
            all_wf(flash@),
            flash@.dom() == old(flash)@.dom(),
            areas@ == areadesc@.whole,
            areas@.len() <= u32::MAX,
            tables_installed(ids@, areas@, states(old(flash)@)) == tables_installed(
                ids@.skip(i as int),
                areas@,
                states(flash@),
            ),
            tables_fit(ids@, areas@, states(old(flash)@), true) ==> tables_fit(
                ids@.skip(i as int),
                areas@,
                states(flash@),
                true,
            ),
            tables_fit(ids@.skip(i as int), areas@, states(flash@), false) ==> tables_fit(
                ids@,
                areas@,
                states(old(flash)@),
                false,
            ),
        decreases ids.len() - i,
    {
        let id = ids[i];
        assert(ids@.skip(i as int)[0] == id);
        assert(ids@.skip(i as int).skip(1) =~= ids@.skip(i + 1));
        proof {
            lemma_tables_step(ids@.skip(i as int), areas@, states(flash@));
            lemma_tables_fit_step(ids@.skip(i as int), areas@, states(flash@), true);
            lemma_tables_fit_step(ids@.skip(i as int), areas@, states(flash@), false);
        }
        install_table(flash, areas, id)?;
        i = i + 1;
    }
    proof {
        lemma_tables_step(ids@.skip(i as int), areas@, states(flash@));
        lemma_tables_fit_step(ids@.skip(i as int), areas@, states(flash@), false);
    }
    Ok(())
}

/// What is to be installed in a slot: nothing, or an image of some length,
/// whose signature may be made bad.
#[derive(Copy, Clone, Debug, PartialEq, Eq, Structural)]
pub enum SlotContent {
    Nothing,
    Image { len: usize, bad_sig: bool },
}

impl SlotContent {
    /// What a device gets of the image `data` that was installed for this:
    /// its plain form, where an image was asked for.
    pub open spec fn written(self, data: ImageData) -> Option<Seq<u8>> {
        if self is Image {
            Some(data.plain@)
        } else {
            None
        }
    }

    /// The number of bytes that this takes in flash, with `count`
    /// dependencies on a device of write alignment `align`, for a
    /// bootloader that takes bare images.
    pub open spec fn span(self, caps: u32, count: nat, align: usize) -> nat {
        match self {
            SlotContent::Nothing => 0,
            SlotContent::Image { len, bad_sig } => bare_span(caps, count, len, align),
        }
    }

    /// This can be installed in slot `slot` of `devices` as a bare image
    /// with version `version` and `count` dependencies: if it is an image,
    /// the device is there, the image can be made, and the device can
    /// write it at the start of the slot, with no bad region that can fail
    /// the write.
    pub open spec fn installable(
        self,
        devices: Map<u8, FlashState>,
        slot: SlotInfo,
        version: ImageVersion,
        count: nat,
        caps: u32,
    ) -> bool {
        self matches SlotContent::Image { len, bad_sig } ==> {
            let dev = devices[slot.dev_id];
            let span = bare_span(caps, count, len, dev.align) as int;
            &&& devices.contains_key(slot.dev_id)
            &&& image_makeable(dev, slot, version, len)
            &&& dev.can_write(slot.base_off as int, span)
            &&& !dev.may_fail(slot.base_off as int, span)
        }
    }

    /// The image `data` is what a bare installation of this in slot `slot`
    /// of `devices` gives: for an image, unencrypted, as long as a bare
    /// image is, and inside its device; for nothing, empty.
    pub open spec fn gave(
        self,
        devices: Map<u8, FlashState>,
        slot: SlotInfo,
        count: nat,
        caps: u32,
        data: ImageData,
    ) -> bool {
        &&& data.cipher is None
        &&& data.plain@.len() == (if self is Image {
            self.span(caps, count, devices[slot.dev_id].align)
        } else {
            0
        })
        &&& self is Image ==> devices.contains_key(slot.dev_id) && slot.base_off
            + data.plain@.len() <= devices[slot.dev_id].data.len()
    }
}

/// The devices after `bytes`, if any, have been written to the start of
/// slot `slot`.
pub open spec fn with_image(devices: Map<u8, FlashState>, slot: SlotInfo, bytes: Option<Seq<u8>>)
    -> Map<u8, FlashState> {
    match bytes {
        Some(payload) => devices.insert(
            slot.dev_id,
            devices[slot.dev_id].written(slot.base_off as int, payload),
        ),
        None => devices,
    }
}

/// The `len` bytes at the start of slot `slot` and the `other_len` bytes at
/// the start of slot `other` have no byte in common.
pub open spec fn slots_apart(slot: SlotInfo, len: nat, other: SlotInfo, other_len: nat) -> bool {
    slot.dev_id != other.dev_id || apart(
        slot.base_off as int,
        len as int,
        other.base_off as int,
        other_len as int,
    )
}

/// What is to go where, for the two slots of one image.
pub struct PairPlan {
    pub slots: [SlotInfo; 2],
    pub primary: SlotContent,
    pub upgrade: SlotContent,
    /// The version of the image in the primary slot and in the other.
    pub versions: (ImageVersion, ImageVersion),
    /// The dependencies that the image declares in the primary slot and in
    /// the other.
    pub declared: (Seq<Dependency>, Seq<Dependency>),
    pub caps: u32,
}

impl PairPlan {
    /// The version of the image in slot `slot`.
    pub open spec fn version(self, slot: int) -> ImageVersion {
        if slot == 0 {
            self.versions.0
        } else {
            self.versions.1
        }
    }

    /// The dependencies that the image declares in slot `slot`.
    pub open spec fn depends_on(self, slot: int) -> Seq<Dependency> {
        if slot == 0 {
            self.declared.0
        } else {
            self.declared.1
        }
    }

    /// The number of dependencies that the image declares in slot `slot`.
    pub open spec fn count(self, slot: int) -> nat {
        self.depends_on(slot).len()
    }

    /// `data` is the image that goes to slot `slot`, as it is made with the
    /// keys `keys` for a device with write alignment `align` and erased
    /// value `erased`.
    pub open spec fn made(self, slot: int, keys: KeyRing, align: usize, erased: u8, data: ImageData)
        -> bool {
        self.content(slot) matches SlotContent::Image { len, bad_sig } ==> image_made(
            data,
            self.slots[slot],
            self.caps,
            self.depends_on(slot),
            self.version(slot),
            len,
            bad_sig,
            keys,
            align,
            erased,
        )
    }

    /// `image` holds the two images that go to the slots, as they are made
    /// with the keys `keys` for the devices `devices`.
    pub open spec fn made_both(self, keys: KeyRing, devices: Map<u8, FlashState>, image: OneImage)
        -> bool {
        &&& image.slots == self.slots
        &&& self.made(
            0,
            keys,
            devices[self.slots[0].dev_id].align,
            devices[self.slots[0].dev_id].erased_val,
            image.primaries,
        )
        &&& self.made(
            1,
            keys,
            devices[self.slots[1].dev_id].align,
            devices[self.slots[1].dev_id].erased_val,
            image.upgrades,
        )
        &&& self.primary is Nothing ==> image.primaries.plain@.len() == 0 && image.primaries.cipher
            is None
        &&& self.upgrade is Nothing ==> image.upgrades.plain@.len() == 0 && image.upgrades.cipher
            is None
    }

    /// What goes to slot `slot`.
    pub open spec fn content(self, slot: int) -> SlotContent {
        if slot == 0 {
            self.primary
        } else {
            self.upgrade
        }
    }

    /// The number of bytes that go to slot `slot` of `devices`.
    pub open spec fn span(self, devices: Map<u8, FlashState>, slot: int) -> nat {
        self.content(slot).span(
            self.caps,
            self.count(slot),
            devices[self.slots[slot].dev_id].align,
        )
    }

    /// Both slots can be given what they are to get: each by itself, and
    /// where both get an image, the two lie apart.
    pub open spec fn installable(self, devices: Map<u8, FlashState>) -> bool {
        &&& self.primary.installable(
            devices,
            self.slots[0],
            self.versions.0,
            self.count(0),
            self.caps,
        )
        &&& self.upgrade.installable(
            devices,
            self.slots[1],
            self.versions.1,
            self.count(1),
            self.caps,
        )
        &&& self.primary is Image && self.upgrade is Image ==> slots_apart(
            self.slots[0],
            self.span(devices, 0),
            self.slots[1],
            self.span(devices, 1),
        )
    }

    /// `image` is what the installation gave, and `after` are the devices
    /// `before` with its images written.
    pub open spec fn installed(
        self,
        before: Map<u8, FlashState>,
        after: Map<u8, FlashState>,
        image: OneImage,
    ) -> bool {
        let between = with_image(before, self.slots[0], self.primary.written(image.primaries));
        &&& self.primary.gave(before, self.slots[0], self.count(0), self.caps, image.primaries)
        &&& self.upgrade.gave(between, self.slots[1], self.count(1), self.caps, image.upgrades)
        &&& after == with_image(between, self.slots[1], self.upgrade.written(image.upgrades))
    }

    /// Both slots are on devices that are among `devices`, and begin inside
    /// them.
    pub open spec fn reachable(self, devices: Map<u8, FlashState>) -> bool {
        &&& devices.contains_key(self.slots[0].dev_id)
        &&& self.slots[0].base_off <= devices[self.slots[0].dev_id].data.len()
        &&& devices.contains_key(self.slots[1].dev_id)
        &&& self.slots[1].base_off <= devices[self.slots[1].dev_id].data.len()
    }

    /// The `len` bytes at `off` of device `id` lie apart from the images
    /// that go to the two slots.
    pub open spec fn clear_of(self, devices: Map<u8, FlashState>, id: u8, off: int, len: int)
        -> bool {
        &&& self.primary is Image ==> self.slots[0].dev_id != id || apart(
            self.slots[0].base_off as int,
            self.span(devices, 0) as int,
            off,
            len,
        )
        &&& self.upgrade is Image ==> self.slots[1].dev_id != id || apart(
            self.slots[1].base_off as int,
            self.span(devices, 1) as int,
            off,
            len,
        )
    }

    /// The images that go to the slots of `other` lie apart from those that
    /// go to the slots of this.
    pub open spec fn apart_from(self, other: PairPlan, devices: Map<u8, FlashState>) -> bool {
        &&& other.primary is Image ==> self.clear_of(
            devices,
            other.slots[0].dev_id,
            other.slots[0].base_off as int,
            other.span(devices, 0) as int,
        )
        &&& other.upgrade is Image ==> self.clear_of(
            devices,
            other.slots[1].dev_id,
            other.slots[1].base_off as int,
            other.span(devices, 1) as int,
        )
    }

    /// `image` is for these slots, and its images are as long as is planned
    /// on the devices `devices`.
    pub open spec fn sized(self, devices: Map<u8, FlashState>, image: OneImage) -> bool {
        &&& image.slots == self.slots
        &&& self.primary.gave(devices, self.slots[0], self.count(0), self.caps, image.primaries)
        &&& self.upgrade.gave(devices, self.slots[1], self.count(1), self.caps, image.upgrades)
    }

    /// `image` is as planned on the devices `devices`, and the slots of the
    /// devices `now` hold it.
    pub open spec fn placed(
        self,
        devices: Map<u8, FlashState>,
        now: Map<u8, FlashState>,
        image: OneImage,
    ) -> bool {
        &&& self.sized(devices, image)
        &&& image_found(image, now, 0, 0, false)
        &&& image_found(image, now, 1, 1, false)
    }
}

/// The devices `after` are the devices `before`, each with its length, its
/// write alignment and its erased value.
pub open spec fn same_kinds(before: Map<u8, FlashState>, after: Map<u8, FlashState>) -> bool {
    &&& after.dom() == before.dom()
    &&& forall|id: u8| #[trigger] before.contains_key(id) ==> same_kind(before[id], after[id])
}

/// The devices `after` have the lengths and the write alignments of the
/// devices `before`.
pub open spec fn same_shape(before: Map<u8, FlashState>, after: Map<u8, FlashState>) -> bool {
    &&& after.dom() == before.dom()
    &&& forall|id: u8| #[trigger]
        before.contains_key(id) ==> after[id].align == before[id].align && after[id].data.len()
            == before[id].data.len() && (before[id].wf() ==> after[id].wf())
}

/// Writing an image to a slot leaves every device with its length and its
/// write alignment.
pub proof fn lemma_with_image_shape(
    devices: Map<u8, FlashState>,
    slot: SlotInfo,
    bytes: Option<Seq<u8>>,
)
    requires
        bytes is Some ==> devices.contains_key(slot.dev_id),
    ensures
        same_shape(devices, with_image(devices, slot, bytes)),
{
    let after = with_image(devices, slot, bytes);
    assert(after.dom() =~= devices.dom());
}

/// Writing an image to a slot leaves a device as it was for every range of
/// bytes that lies apart from the image.
pub proof fn lemma_with_image_apart(
    devices: Map<u8, FlashState>,
    slot: SlotInfo,
    bytes: Option<Seq<u8>>,
    id: u8,
    off: int,
    len: int,
)
    requires
        devices.contains_key(id),
        devices[id].wf(),
        0 <= off,
        0 <= len,
        bytes matches Some(payload) ==> slot.dev_id != id || apart(
            slot.base_off as int,
            payload.len() as int,
            off,
            len,
        ),
    ensures
        same_there(devices[id], with_image(devices, slot, bytes)[id], off, len),
{
    match bytes {
        Some(payload) => {
            if slot.dev_id == id {
                lemma_written_apart(devices[id], slot.base_off as int, payload, off, len);
            }
        },
        None => {},
    }
}

/// An installation leaves a device as it was for every range of bytes that
/// lies apart from the two images.
pub proof fn lemma_pair_apart(
    plan: PairPlan,
    before: Map<u8, FlashState>,
    after: Map<u8, FlashState>,
    image: OneImage,
    id: u8,
    off: int,
    len: int,
)
    requires
        plan.installed(before, after, image),
        before.contains_key(id),
        before[id].wf(),
        0 <= off,
        0 <= len,
        plan.clear_of(before, id, off, len),
    ensures
        same_there(before[id], after[id], off, len),
        same_shape(before, after),
{
    let first = plan.primary.written(image.primaries);
    let between = with_image(before, plan.slots[0], first);
    let second = plan.upgrade.written(image.upgrades);
    lemma_with_image_shape(before, plan.slots[0], first);
    lemma_with_image_shape(between, plan.slots[1], second);
    lemma_with_image_apart(before, plan.slots[0], first, id, off, len);
    assert(between.contains_key(id));
    lemma_with_image_apart(between, plan.slots[1], second, id, off, len);
    lemma_same_there_twice(before[id], between[id], after[id], off, len);
}

/// An installation leaves every device with its length and its write
/// alignment.
pub proof fn lemma_pair_shape(
    plan: PairPlan,
    before: Map<u8, FlashState>,
    after: Map<u8, FlashState>,
    image: OneImage,
)
    requires
        plan.installed(before, after, image),
    ensures
        same_shape(before, after),
{
    let first = plan.primary.written(image.primaries);
    let between = with_image(before, plan.slots[0], first);
    let second = plan.upgrade.written(image.upgrades);
    lemma_with_image_shape(before, plan.slots[0], first);
    lemma_with_image_shape(between, plan.slots[1], second);
}

/// After an installation in slots that can be reached and whose images lie
/// apart, both slots hold what was installed.
pub proof fn lemma_pair_found(
    plan: PairPlan,
    before: Map<u8, FlashState>,
    after: Map<u8, FlashState>,
    image: OneImage,
)
    requires
        plan.installed(before, after, image),
        plan.reachable(before),
        image.slots == plan.slots,
        forall|id: u8| before.contains_key(id) ==> (#[trigger] before[id]).wf(),
        plan.primary is Image && plan.upgrade is Image ==> slots_apart(
            plan.slots[0],
            plan.span(before, 0),
            plan.slots[1],
            plan.span(before, 1),
        ),
    ensures
        plan.placed(before, after, image),
{
    let first = plan.primary.written(image.primaries);
    let between = with_image(before, plan.slots[0], first);
    let second = plan.upgrade.written(image.upgrades);
    let one = plan.slots[0];
    let two = plan.slots[1];
    lemma_with_image_shape(before, one, first);
    lemma_with_image_shape(between, two, second);
    assert(between.contains_key(one.dev_id));
    assert(between.contains_key(two.dev_id));
    // The upgrade slot holds what was written last.
    if plan.upgrade is Image {
        lemma_written_there(between[two.dev_id], two.base_off as int, image.upgrades.plain@);
    } else {
        assert(after[two.dev_id].data.subrange(two.base_off as int, two.base_off + 0)
            =~= image.upgrades.plain@);
    }
    // The primary slot holds what was written first, which the second
    // write lies apart from.
    if plan.primary is Image {
        lemma_written_there(before[one.dev_id], one.base_off as int, image.primaries.plain@);
        lemma_with_image_apart(
            between,
            two,
            second,
            one.dev_id,
            one.base_off as int,
            image.primaries.plain@.len() as int,
        );
    } else {
        assert(after[one.dev_id].data.subrange(one.base_off as int, one.base_off + 0)
            =~= image.primaries.plain@);
    }
}

/// What was found in the slots of an image is still found there after the
/// devices have changed, where they are as they were for the two images.
pub proof fn lemma_placed_still(
    plan: PairPlan,
    devices: Map<u8, FlashState>,
    before: Map<u8, FlashState>,
    after: Map<u8, FlashState>,
    image: OneImage,
)
    requires
        plan.placed(devices, before, image),
        same_shape(before, after),
        plan.primary is Image ==> same_there(
            before[plan.slots[0].dev_id],
            after[plan.slots[0].dev_id],
            plan.slots[0].base_off as int,
            image.primaries.plain@.len() as int,
        ),
        plan.upgrade is Image ==> same_there(
            before[plan.slots[1].dev_id],
            after[plan.slots[1].dev_id],
            plan.slots[1].base_off as int,
            image.upgrades.plain@.len() as int,
        ),
    ensures
        plan.placed(devices, after, image),
{
    let one = plan.slots[0];
    let two = plan.slots[1];
    if !(plan.primary is Image) {
        assert(after[one.dev_id].data.subrange(one.base_off as int, one.base_off + 0)
            =~= image.primaries.plain@);
    }
    if !(plan.upgrade is Image) {
        assert(after[two.dev_id].data.subrange(two.base_off as int, two.base_off + 0)
            =~= image.upgrades.plain@);
    }
}

/// What is to go where in the slots `slots` of an image, with the versions
/// and the dependencies that `dep` gives.
pub open spec fn pair_plan<D: Depender>(
    slots: [SlotInfo; 2],
    dep: D,
    primary: SlotContent,
    upgrade: SlotContent,
    caps: u32,
) -> PairPlan {
    PairPlan {
        slots,
        primary,
        upgrade,
        versions: (dep.version_of(slots[0].index), dep.version_of(slots[1].index)),
        declared: (
            dependencies_on(dep.other(), dep.deps_of(slots[0].index)),
            dependencies_on(dep.other(), dep.deps_of(slots[1].index)),
        ),
        caps,
    }
}

/// Installs in the two slots `slots` of an image what `primary` and
/// `upgrade` ask for, with the versions and dependencies that `dep` gives.
///
/// Where nothing is asked for, nothing is done. For a bootloader that takes
/// images that are neither signed nor encrypted, the images are installed
/// wherever both slots can be given what they are to get, and the devices
/// are then as they were but for the two images.
pub fn install_pair<D: Depender>(
    flash: &mut SimMultiFlash,
    slots: &[SlotInfo; 2],
    dep: &D,
    primary: SlotContent,
    upgrade: SlotContent,
    info: &BootInfo,
    keys: &KeyRing,
    wrapped: &Option<WrappedKey>,
) -> (installed: Result<OneImage, Abort>)
    requires
        all_wf(old(flash)@),
        info.wf(),
        primary matches SlotContent::Image { len, bad_sig } ==> len <= 0x4000_0000
            && dep.versioned(slots[0].index) && dep.dependable(slots[0].index) && dep.deps_of(
            slots[0].index,
        ).len() <= MAX_DEPENDENCIES,
        upgrade matches SlotContent::Image { len, bad_sig } ==> len <= 0x4000_0000
            && dep.versioned(slots[1].index) && dep.dependable(slots[1].index) && dep.deps_of(
            slots[1].index,
        ).len() <= MAX_DEPENDENCIES,
    ensures
        all_wf(final(flash)@),
        final(flash)@.dom() == old(flash)@.dom(),
        installed matches Ok(image) ==> {
            &&& image.slots == *slots
            &&& primary is Nothing ==> image.primaries.plain@.len() == 0 && image.primaries.cipher
                is None
            &&& upgrade is Nothing ==> image.upgrades.plain@.len() == 0 && image.upgrades.cipher
                is None
        },
        primary is Nothing && upgrade is Nothing ==> installed is Ok && final(flash)@ == old(
            flash,
        )@,
        primary is Image && !old(flash)@.contains_key(slots[0].dev_id) ==> installed == Err::<
            OneImage,
            Abort,
        >(Abort::NoDevice),
        upgrade is Image && !old(flash)@.contains_key(slots[1].dev_id) ==> installed is Err,
        same_kinds(states(old(flash)@), states(final(flash)@)),
        ({
            let plan = pair_plan(*slots, *dep, primary, upgrade, info.caps);
            &&& installed matches Ok(image) ==> plan.made_both(*keys, states(old(flash)@), image)
            &&& takes_bare(info.caps) && plan.installable(states(old(flash)@)) ==> installed is Ok
            &&& takes_bare(info.caps) ==> (installed matches Ok(image) ==> plan.installed(
                states(old(flash)@),
                states(final(flash)@),
                image,
            ))
        }),
{
    let ghost plan = pair_plan(*slots, *dep, primary, upgrade, info.caps);
    let ghost before = states(flash@);
    let primaries = match primary {
        SlotContent::Nothing => install_no_image(),
        SlotContent::Image { len, bad_sig } => install_image(
            flash,
            &slots[0],
            len,
            dep,
            bad_sig,
            info,
            keys,
            wrapped,
        )?,
    };
    let ghost between = states(flash@);
    proof {
        if primary is Image {
            lemma_changed_state(old(flash)@, flash@, slots[0].dev_id);
        }
        assert(same_kinds(before, between)) by {
            assert(between.dom() =~= before.dom());
        }
        if takes_bare(info.caps) {
            assert(between == with_image(before, slots[0], primary.written(primaries)));
            if primary is Image && upgrade is Image && plan.installable(before) && slots[0].dev_id
                == slots[1].dev_id {
                lemma_written_apart(
                    before[slots[0].dev_id],
                    slots[0].base_off as int,
                    primaries.plain@,
                    slots[1].base_off as int,
                    plan.span(before, 1) as int,
                );
            }
            assert(plan.installable(before) ==> upgrade.installable(
                between,
                slots[1],
                plan.versions.1,
                plan.count(1),
                plan.caps,
            ));
        }
    }
    let ghost middle = flash@;
    let upgrades = match upgrade {
        SlotContent::Nothing => install_no_image(),
        SlotContent::Image { len, bad_sig } => install_image(
            flash,
            &slots[1],
            len,
            dep,
            bad_sig,
            info,
            keys,
            wrapped,
        )?,
    };
    proof {
        if upgrade is Image {
            lemma_changed_state(middle, flash@, slots[1].dev_id);
        }
        assert(same_kinds(before, states(flash@))) by {
            assert(states(flash@).dom() =~= before.dom());
        }
    }
    Ok(OneImage { slots: *slots, primaries, upgrades })
}

/// Slot `slot` of `image` holds what was installed in it, if anything was.
pub open spec fn slot_holds(
    image: OneImage,
    devices: Map<u8, FlashState>,
    slot: usize,
    encrypts: bool,
) -> bool {
    image.installed(slot).findable(encrypts, image.slots[slot as int].index) ==> image_found(
        image,
        devices,
        slot,
        slot,
        encrypts,
    )
}

/// Every slot of `images` holds what was installed in it.
pub open spec fn installed_found(
    images: Seq<OneImage>,
    devices: Map<u8, FlashState>,
    encrypts: bool,
) -> bool {
    forall|k: int|
        0 <= k < images.len() ==> slot_holds(#[trigger] images[k], devices, 0, encrypts)
            && slot_holds(images[k], devices, 1, encrypts)
}

/// Every slot of `images` in which something was installed can be read
/// where that would lie.
pub open spec fn installed_readable(
    images: Seq<OneImage>,
    devices: Map<u8, FlashState>,
    encrypts: bool,
) -> bool {
    forall|k: int, slot: usize|
        0 <= k < images.len() && slot < 2 && (#[trigger] images[k].installed(slot)).findable(
            encrypts,
            images[k].slots[slot as int].index,
        ) ==> image_checkable(images[k], devices, slot, slot, encrypts)
}

impl Images {
    /// Makes sure that every slot holds what was installed in it: that no
    /// slot lies over another, and that the partition table and the trailer
    /// marks lie over no image. Where one does not, the error is `Overlap`
    /// if every slot can be read.
    pub fn confirm(&self, info: &BootInfo) -> (done: Result<(), Abort>)
        requires
            self.wf(),
        ensures
            done is Ok <==> installed_found(self.images@, states(self.flash@), info.encrypts()),
            done matches Err(e) ==> (e == Abort::Overlap || e == Abort::OutOfBounds || e
                == Abort::NoDevice) && (installed_readable(
                self.images@,
                states(self.flash@),
                info.encrypts(),
            ) ==> e == Abort::Overlap),
    {
        let mut i: usize = 0;
        while i < self.images.len()
            invariant
                i <= self.images.len(),
                self.wf(),
                forall|k: int|
                    0 <= k < i ==> slot_holds(
                        #[trigger] self.images@[k],
                        states(self.flash@),
                        0,
                        info.encrypts(),
                    ) && slot_holds(self.images@[k], states(self.flash@), 1, info.encrypts()),
            decreases self.images.len() - i,
        {
            let image = &self.images[i];
            let mut slot: usize = 0;
            while slot < 2
                invariant
                    slot <= 2,
                    i < self.images.len(),
                    self.wf(),
                    *image == self.images@[i as int],
                    forall|s: usize|
                        s < slot ==> slot_holds(
                            self.images@[i as int],
                            states(self.flash@),
                            s,
                            info.encrypts(),
                        ),
                decreases 2 - slot,
            {
                let installed = if slot == 0 {
                    &image.primaries
                } else {
                    &image.upgrades
                };
                let place = &image.slots[slot];
                let findable = !info.is_encrypted() || place.index == 0 || (place.index == 1
                    && installed.cipher.is_some());
                if findable {
                    match verify_image(&self.flash, place, installed, info) {
                        Ok(true) => {},
                        Ok(false) => {
                            assert(!slot_holds(
                                self.images@[i as int],
                                states(self.flash@),
                                slot,
                                info.encrypts(),
                            ));
                            return Err(Abort::Overlap);
                        },
                        Err(e) => {
                            assert(!image_checkable(
                                self.images@[i as int],
                                states(self.flash@),
                                slot,
                                slot,
                                info.encrypts(),
                            ));
                            return Err(e);
                        },
                    }
                }
                slot = slot + 1;
            }
            i = i + 1;
        }
        Ok(())
    }
}

/// What a set of images is like: the same slots as the builder's, nothing
/// counted yet, nothing installed where `primary` or `upgrade` says so, and
/// in every slot what was installed in it.
pub open spec fn images_of(
    images: Images,
    builder: ImagesBuilder,
    info: BootInfo,
    primary: spec_fn(int) -> bool,
    upgrade: spec_fn(int) -> bool,
) -> bool {
    &&& images.wf()
    &&& installed_found(images.images@, states(images.flash@), info.encrypts())
    &&& images.flash@.dom() == builder.flash@.dom()
    &&& images.areadesc == builder.areadesc
    &&& images.total_count is None
    &&& images.images@.len() == builder.slots@.len()
    &&& forall|k: int|
        0 <= k < images.images@.len() ==> {
            let image = #[trigger] images.images@[k];
            &&& image.slots == builder.slots@[k]
            &&& !primary(k) ==> image.primaries.plain@.len() == 0 && image.primaries.cipher is None
            &&& !upgrade(k) ==> image.upgrades.plain@.len() == 0 && image.upgrades.cipher is None
        }
}

/// Where the mark of an upgrade goes in slot `slot`, on a device in state
/// `dev`, and what is written there; nothing where the place cannot be
/// held, or the mark cannot be written in aligned units.
pub open spec fn mark_place(slot: SlotInfo, info: BootInfo, dev: FlashState) -> Option<
    (int, Seq<u8>),
> {
    let at = slot.trailer_off + info.max_align * 4;
    if at > usize::MAX {
        None
    } else {
        upgrade_mark(at, dev.align as int, dev.erased_val)
    }
}

/// The marks of an upgrade of the slots `slot` and `other` have no byte in
/// common.
pub open spec fn marks_apart(
    slot: SlotInfo,
    other: SlotInfo,
    info: BootInfo,
    devices: Map<u8, FlashState>,
) -> bool {
    let mark = mark_place(slot, info, devices[slot.dev_id]);
    let second = mark_place(other, info, devices[other.dev_id]);
    slot.dev_id == other.dev_id && mark is Some && second is Some ==> apart(
        mark.unwrap().0,
        mark.unwrap().1.len() as int,
        second.unwrap().0,
        second.unwrap().1.len() as int,
    )
}

/// A mark does not begin before its device does.
pub proof fn lemma_mark_inside(slot: SlotInfo, info: BootInfo, dev: FlashState)
    requires
        dev.align > 0,
    ensures
        mark_place(slot, info, dev) matches Some(mark) ==> 0 <= mark.0,
{
    let at = slot.trailer_off + info.max_align * 4;
    let align = dev.align as int;
    assert(at % align <= at) by (nonlinear_arith)
        requires
            0 <= at,
            align > 0,
    ;
}

/// A bootloader that takes images that are neither signed nor encrypted
/// does not expect an encrypted image.
pub proof fn lemma_bare_plain(info: BootInfo)
    ensures
        takes_bare(info.caps) ==> !info.encrypts(),
{
    assert(forall|bits: u32| bits & bits == bits) by (bit_vector);
}

impl ImagesBuilder {
    /// What the slots of image `k` are to get where `primary` goes to the
    /// primary slots and `upgrade` to the others, for the test `deps` and a
    /// bootloader with the capabilities `caps`.
    pub open spec fn plan(
        self,
        deps: DepTest,
        primary: SlotContent,
        upgrade: SlotContent,
        caps: u32,
        k: int,
    ) -> PairPlan {
        PairPlan {
            slots: self.slots@[k],
            primary,
            upgrade: if deps.depends[k] == DepType::NoUpgrade {
                SlotContent::Nothing
            } else {
                upgrade
            },
            versions: (
                synthetic_version(k as u8, version_slot(deps.downgrade, 0) as u8, 0),
                synthetic_version(k as u8, version_slot(deps.downgrade, 1) as u8, 0),
            ),
            declared: (
                Seq::empty(),
                if self.slots@.len() > 1 {
                    dependencies_on((1 - k) as u8, pair_deps(deps.depends[k], k as usize, 1))
                } else {
                    Seq::empty()
                },
            ),
            caps,
        }
    }

    /// The first `upto` of `images` are as they are made with the keys
    /// `keys` for the devices of this builder.
    pub open spec fn images_made(
        self,
        deps: DepTest,
        primary: SlotContent,
        upgrade: SlotContent,
        caps: u32,
        keys: KeyRing,
        upto: int,
        images: Seq<OneImage>,
    ) -> bool {
        forall|k: int|
            0 <= k < upto ==> self.plan(deps, primary, upgrade, caps, k).made_both(
                keys,
                states(self.flash@),
                #[trigger] images[k],
            )
    }

    /// There is room for the images: the slots of each image can be
    /// reached and can be given what they are to get, and the images of one
    /// lie apart from those of any other.
    pub open spec fn roomy(
        self,
        deps: DepTest,
        primary: SlotContent,
        upgrade: SlotContent,
        caps: u32,
    ) -> bool {
        let devices = states(self.flash@);
        &&& forall|k: int|
            0 <= k < self.slots@.len() ==> (#[trigger] self.plan(
                deps,
                primary,
                upgrade,
                caps,
                k,
            )).installable(devices) && self.plan(deps, primary, upgrade, caps, k).reachable(
                devices,
            )
        &&& forall|k: int, j: int|
            0 <= k < self.slots@.len() && 0 <= j < self.slots@.len() && k != j ==> (
            #[trigger] self.plan(deps, primary, upgrade, caps, k)).apart_from(
                #[trigger] self.plan(deps, primary, upgrade, caps, j),
                devices,
            )
    }

    /// The `len` bytes at `off` of device `id` lie apart from the first
    /// `upto` images.
    pub open spec fn clear_of_images(
        self,
        deps: DepTest,
        primary: SlotContent,
        upgrade: SlotContent,
        caps: u32,
        upto: int,
        id: u8,
        off: int,
        len: int,
    ) -> bool {
        forall|k: int|
            0 <= k < upto ==> (#[trigger] self.plan(deps, primary, upgrade, caps, k)).clear_of(
                states(self.flash@),
                id,
                off,
                len,
            )
    }

    /// The devices `after` are as the builder's for every range of bytes
    /// that lies apart from the first `upto` images.
    pub open spec fn images_only(
        self,
        deps: DepTest,
        primary: SlotContent,
        upgrade: SlotContent,
        caps: u32,
        upto: int,
        after: Map<u8, FlashState>,
    ) -> bool {
        forall|id: u8, off: int, len: int|
            #![trigger same_there(states(self.flash@)[id], after[id], off, len)]
            states(self.flash@).contains_key(id) && 0 <= off && 0 <= len && self.clear_of_images(
                deps,
                primary,
                upgrade,
                caps,
                upto,
                id,
                off,
                len,
            ) ==> same_there(states(self.flash@)[id], after[id], off, len)
    }

    /// The first `upto` of `images` are as planned.
    pub open spec fn images_sized(
        self,
        deps: DepTest,
        primary: SlotContent,
        upgrade: SlotContent,
        caps: u32,
        upto: int,
        images: Seq<OneImage>,
    ) -> bool {
        forall|k: int|
            0 <= k < upto ==> self.plan(deps, primary, upgrade, caps, k).sized(
                states(self.flash@),
                #[trigger] images[k],
            )
    }

    /// The first `upto` of `images` are as planned, and the devices `now`
    /// hold them.
    pub open spec fn images_placed(
        self,
        deps: DepTest,
        primary: SlotContent,
        upgrade: SlotContent,
        caps: u32,
        upto: int,
        now: Map<u8, FlashState>,
        images: Seq<OneImage>,
    ) -> bool {
        forall|k: int|
            0 <= k < upto ==> self.plan(deps, primary, upgrade, caps, k).placed(
                states(self.flash@),
                now,
                #[trigger] images[k],
            )
    }

    /// With room for the images, and the first `m` of them installed, the
    /// next can be installed.
    pub proof fn lemma_room_for_next(
        self,
        deps: DepTest,
        primary: SlotContent,
        upgrade: SlotContent,
        caps: u32,
        m: int,
        now: Map<u8, FlashState>,
    )
        requires
            0 <= m < self.slots@.len(),
            self.roomy(deps, primary, upgrade, caps),
            same_shape(states(self.flash@), now),
            self.images_only(deps, primary, upgrade, caps, m, now),
        ensures
            self.plan(deps, primary, upgrade, caps, m).installable(now),
            self.plan(deps, primary, upgrade, caps, m).reachable(now),
    {
        let devices = states(self.flash@);
        let plan = self.plan(deps, primary, upgrade, caps, m);
        assert(plan.installable(devices) && plan.reachable(devices));
        assert forall|s: int| 0 <= s < 2 && plan.content(s) is Image implies same_there(
            devices[plan.slots[s].dev_id],
            now[plan.slots[s].dev_id],
            plan.slots[s].base_off as int,
            plan.span(devices, s) as int,
        ) by {
            let id = plan.slots[s].dev_id;
            let off = plan.slots[s].base_off as int;
            let len = plan.span(devices, s) as int;
            assert forall|k: int| 0 <= k < m implies (#[trigger] self.plan(
                deps,
                primary,
                upgrade,
                caps,
                k,
            )).clear_of(devices, id, off, len) by {
                assert(self.plan(deps, primary, upgrade, caps, k).apart_from(plan, devices));
            }
            assert(self.clear_of_images(deps, primary, upgrade, caps, m, id, off, len));
        }
        if plan.primary is Image {
            assert(plan.content(0) is Image);
        }
        if plan.upgrade is Image {
            assert(plan.content(1) is Image);
        }
    }

    /// After the next image has been installed, the devices are still as
    /// the builder's outside the images, and the images are as planned;
    /// with room for the images, the devices hold them all.
    pub proof fn lemma_next_image(
        self,
        deps: DepTest,
        primary: SlotContent,
        upgrade: SlotContent,
        caps: u32,
        m: int,
        now: Map<u8, FlashState>,
        next: Map<u8, FlashState>,
        images: Seq<OneImage>,
        image: OneImage,
    )
        requires
            0 <= m < self.slots@.len(),
            images.len() == m,
            forall|id: u8|
                states(self.flash@).contains_key(id) ==> (#[trigger] states(
                    self.flash@,
                )[id]).wf(),
            same_shape(states(self.flash@), now),
            self.images_only(deps, primary, upgrade, caps, m, now),
            self.images_sized(deps, primary, upgrade, caps, m, images),
            self.roomy(deps, primary, upgrade, caps) ==> self.images_placed(
                deps,
                primary,
                upgrade,
                caps,
                m,
                now,
                images,
            ),
            self.plan(deps, primary, upgrade, caps, m).installed(now, next, image),
            image.slots == self.slots@[m],
        ensures
            same_shape(states(self.flash@), next),
            self.images_only(deps, primary, upgrade, caps, m + 1, next),
            self.images_sized(deps, primary, upgrade, caps, m + 1, images.push(image)),
            self.roomy(deps, primary, upgrade, caps) ==> self.images_placed(
                deps,
                primary,
                upgrade,
                caps,
                m + 1,
                next,
                images.push(image),
            ),
    {
        let devices = states(self.flash@);
        let plan = self.plan(deps, primary, upgrade, caps, m);
        let all = images.push(image);
        lemma_pair_shape(plan, now, next, image);
        let between = with_image(now, plan.slots[0], plan.primary.written(image.primaries));
        lemma_with_image_shape(now, plan.slots[0], plan.primary.written(image.primaries));
        assert(same_shape(devices, next));
        assert(plan.sized(devices, image));
        assert forall|k: int| 0 <= k < m + 1 implies self.plan(
            deps,
            primary,
            upgrade,
            caps,
            k,
        ).sized(devices, #[trigger] all[k]) by {
            if k < m {
                assert(all[k] == images[k]);
            }
        }
        assert forall|id: u8, off: int, len: int|
            #![trigger same_there(devices[id], next[id], off, len)]
            devices.contains_key(id) && 0 <= off && 0 <= len && self.clear_of_images(
                deps,
                primary,
                upgrade,
                caps,
                m + 1,
                id,
                off,
                len,
            ) implies same_there(devices[id], next[id], off, len) by {
            assert(self.clear_of_images(deps, primary, upgrade, caps, m, id, off, len));
            assert(same_there(devices[id], now[id], off, len));
            assert(plan.clear_of(devices, id, off, len));
            lemma_pair_apart(plan, now, next, image, id, off, len);
            lemma_same_there_twice(devices[id], now[id], next[id], off, len);
        }
        if self.roomy(deps, primary, upgrade, caps) {
            self.lemma_room_for_next(deps, primary, upgrade, caps, m, now);
            lemma_pair_found(plan, now, next, image);
            assert forall|k: int| 0 <= k < m + 1 implies self.plan(
                deps,
                primary,
                upgrade,
                caps,
                k,
            ).placed(devices, next, #[trigger] all[k]) by {
                if k < m {
                    let earlier = self.plan(deps, primary, upgrade, caps, k);
                    assert(all[k] == images[k]);
                    assert(earlier.placed(devices, now, images[k]));
                    assert(plan.apart_from(earlier, devices));
                    if earlier.primary is Image {
                        lemma_pair_apart(
                            plan,
                            now,
                            next,
                            image,
                            earlier.slots[0].dev_id,
                            earlier.slots[0].base_off as int,
                            images[k].primaries.plain@.len() as int,
                        );
                    }
                    if earlier.upgrade is Image {
                        lemma_pair_apart(
                            plan,
                            now,
                            next,
                            image,
                            earlier.slots[1].dev_id,
                            earlier.slots[1].base_off as int,
                            images[k].upgrades.plain@.len() as int,
                        );
                    }
                    lemma_pair_shape(plan, now, next, image);
                    lemma_placed_still(earlier, devices, now, next, images[k]);
                }
            }
        }
    }

    /// There is room for the partition tables beside the images: each
    /// device that gets a table has room for it, with no bad region that can
    /// fail the write, and the table lies apart from every image.
    pub open spec fn tables_room(
        self,
        deps: DepTest,
        primary: SlotContent,
        upgrade: SlotContent,
        caps: u32,
    ) -> bool {
        let devices = states(self.flash@);
        let areas = self.areadesc@.whole;
        let ids = device_ids(areas);
        &&& tables_fit(ids, areas, devices, true)
        &&& forall|i: int|
            0 <= i < ids.len() && !table_collides(areas, #[trigger] ids[i])
                && devices.contains_key(ids[i]) ==> self.clear_of_images(
                deps,
                primary,
                upgrade,
                caps,
                self.slots@.len() as int,
                ids[i],
                0,
                padded_table(areas, ids[i], devices[ids[i]].align).len() as int,
            )
    }

    /// The devices `after` are as the builder's for every range of bytes
    /// that lies apart from the images and from the partition tables.
    pub open spec fn tables_only(
        self,
        deps: DepTest,
        primary: SlotContent,
        upgrade: SlotContent,
        caps: u32,
        after: Map<u8, FlashState>,
    ) -> bool {
        forall|id: u8, off: int, len: int|
            #![trigger same_there(states(self.flash@)[id], after[id], off, len)]
            states(self.flash@).contains_key(id) && 0 <= off && 0 <= len && self.clear_of_images(
                deps,
                primary,
                upgrade,
                caps,
                self.slots@.len() as int,
                id,
                off,
                len,
            ) && clear_of_tables(
                device_ids(self.areadesc@.whole),
                self.areadesc@.whole,
                states(self.flash@),
                id,
                off,
                len,
            ) ==> same_there(states(self.flash@)[id], after[id], off, len)
    }

    /// `images` were made of this builder, with partition tables, for a
    /// bootloader that takes images that are neither signed nor encrypted:
    /// they are as planned, their devices hold them, and but for them and
    /// the tables the devices are as the builder's.
    pub open spec fn made_tabled(
        self,
        deps: DepTest,
        primary: SlotContent,
        upgrade: SlotContent,
        caps: u32,
        images: Images,
    ) -> bool {
        self.holds_tabled(deps, primary, upgrade, caps, states(images.flash@), images.images@)
    }

    /// The devices `now` hold the bare images `images` of this builder and
    /// the partition tables: the images are as planned, the devices hold
    /// them, and but for them and the tables the devices are as the
    /// builder's.
    pub open spec fn holds_tabled(
        self,
        deps: DepTest,
        primary: SlotContent,
        upgrade: SlotContent,
        caps: u32,
        now: Map<u8, FlashState>,
        images: Seq<OneImage>,
    ) -> bool {
        &&& same_shape(states(self.flash@), now)
        &&& self.tables_only(deps, primary, upgrade, caps, now)
        &&& self.images_placed(deps, primary, upgrade, caps, self.slots@.len() as int, now, images)
    }

    /// The devices `after` are the devices `before`, which held `images`,
    /// with the partition tables of this builder installed.
    pub open spec fn tables_added(
        self,
        info: BootInfo,
        images: Seq<OneImage>,
        before: Map<u8, FlashState>,
        after: Map<u8, FlashState>,
    ) -> bool {
        &&& installed_found(images, before, info.encrypts())
        &&& after == tables_installed(
            device_ids(self.areadesc@.whole),
            self.areadesc@.whole,
            before,
        )
    }

    /// The devices `after` are the devices `before`, which held `images`,
    /// with the secondary slot of every image marked for upgrade.
    pub open spec fn marks_added(
        self,
        info: BootInfo,
        images: Seq<OneImage>,
        before: Map<u8, FlashState>,
        after: Map<u8, FlashState>,
    ) -> bool {
        &&& installed_found(images, before, info.encrypts())
        &&& after == upgrades_marked(images, 1, info, before)
    }

    /// There is room for the marks of an upgrade beside the images and the
    /// partition tables: the device of each secondary slot is there and can
    /// write the slot's mark, with no bad region that can fail the write;
    /// and each mark lies apart from the images, from the tables and from
    /// the other marks.
    pub open spec fn marks_room(
        self,
        deps: DepTest,
        primary: SlotContent,
        upgrade: SlotContent,
        info: BootInfo,
    ) -> bool {
        let devices = states(self.flash@);
        let areas = self.areadesc@.whole;
        &&& forall|k: int|
            0 <= k < self.slots@.len() ==> {
                let slot = (#[trigger] self.slots@[k])[1];
                &&& devices.contains_key(slot.dev_id)
                &&& mark_place(slot, info, devices[slot.dev_id]) matches Some(mark) && {
                    &&& devices[slot.dev_id].can_write(mark.0, mark.1.len() as int)
                    &&& !devices[slot.dev_id].may_fail(mark.0, mark.1.len() as int)
                    &&& self.clear_of_images(
                        deps,
                        primary,
                        upgrade,
                        info.caps,
                        self.slots@.len() as int,
                        slot.dev_id,
                        mark.0,
                        mark.1.len() as int,
                    )
                    &&& clear_of_tables(
                        device_ids(areas),
                        areas,
                        devices,
                        slot.dev_id,
                        mark.0,
                        mark.1.len() as int,
                    )
                }
            }
        &&& forall|k: int, j: int|
            0 <= k < self.slots@.len() && 0 <= j < self.slots@.len() && k != j ==> marks_apart(
                (#[trigger] self.slots@[k])[1],
                (#[trigger] self.slots@[j])[1],
                info,
                devices,
            )
    }

    /// Images that the devices `before` hold are held by the devices
    /// `after` where these are as those for every image.
    pub proof fn lemma_images_still(
        self,
        deps: DepTest,
        primary: SlotContent,
        upgrade: SlotContent,
        caps: u32,
        before: Map<u8, FlashState>,
        after: Map<u8, FlashState>,
        images: Seq<OneImage>,
    )
        requires
            self.images_placed(
                deps,
                primary,
                upgrade,
                caps,
                self.slots@.len() as int,
                before,
                images,
            ),
            same_shape(before, after),
            forall|k: int, s: int|
                0 <= k < self.slots@.len() && 0 <= s < 2 && (#[trigger] self.plan(
                    deps,
                    primary,
                    upgrade,
                    caps,
                    k,
                ).content(s)) is Image ==> same_there(
                    before[self.slots@[k][s].dev_id],
                    after[self.slots@[k][s].dev_id],
                    self.slots@[k][s].base_off as int,
                    self.plan(deps, primary, upgrade, caps, k).span(states(self.flash@), s) as int,
                ),
        ensures
            self.images_placed(
                deps,
                primary,
                upgrade,
                caps,
                self.slots@.len() as int,
                after,
                images,
            ),
    {
        let devices = states(self.flash@);
        assert forall|k: int| 0 <= k < self.slots@.len() implies self.plan(
            deps,
            primary,
            upgrade,
            caps,
            k,
        ).placed(devices, after, #[trigger] images[k]) by {
            let plan = self.plan(deps, primary, upgrade, caps, k);
            assert(plan.placed(devices, before, images[k]));
            if plan.primary is Image {
                assert(plan.content(0) is Image);
            }
            if plan.upgrade is Image {
                assert(plan.content(1) is Image);
            }
            lemma_placed_still(plan, devices, before, after, images[k]);
        }
    }

    /// `images` were made of this builder for a bootloader that takes
    /// images that are neither signed nor encrypted: they are as planned,
    /// their devices hold them, and but for them the devices are as the
    /// builder's.
    pub open spec fn made_bare(
        self,
        deps: DepTest,
        primary: SlotContent,
        upgrade: SlotContent,
        caps: u32,
        images: Images,
    ) -> bool {
        self.holds_bare(deps, primary, upgrade, caps, states(images.flash@), images.images@)
    }

    /// The devices `now` hold the bare images `images` of this builder:
    /// these are as planned, the devices hold them, and but for them the
    /// devices are as the builder's.
    pub open spec fn holds_bare(
        self,
        deps: DepTest,
        primary: SlotContent,
        upgrade: SlotContent,
        caps: u32,
        now: Map<u8, FlashState>,
        images: Seq<OneImage>,
    ) -> bool {
        let count = self.slots@.len() as int;
        &&& same_shape(states(self.flash@), now)
        &&& self.images_only(deps, primary, upgrade, caps, count, now)
        &&& self.images_placed(deps, primary, upgrade, caps, count, now, images)
    }

    /// Installs, for each image, `primary` in the primary slot and `upgrade`
    /// in the secondary slot, or nothing in the secondary slot of an image
    /// for which the test `deps` provides no upgrade. With two images, the
    /// images declare the dependencies of the test.
    ///
    /// For a bootloader that takes images that are neither signed nor
    /// encrypted, the images are made wherever there is room for them.
    pub fn make_images(
        self,
        deps: &DepTest,
        primary: SlotContent,
        upgrade: SlotContent,
        info: &BootInfo,
        keys: &KeyRing,
        wrapped: &Option<WrappedKey>,
    ) -> (made: Result<Images, Abort>)
        requires
            self.wf(),
            info.wf(),
            primary matches SlotContent::Image { len, bad_sig } ==> len <= 0x4000_0000,
            upgrade matches SlotContent::Image { len, bad_sig } ==> len <= 0x4000_0000,
        ensures
            made matches Ok(images) ==> images_of(
                images,
                self,
                *info,
                |k: int| primary is Image,
                |k: int| upgrade is Image && deps.depends[k] != DepType::NoUpgrade,
            ),
            made matches Ok(images) ==> self.images_made(
                *deps,
                primary,
                upgrade,
                info.caps,
                *keys,
                self.slots@.len() as int,
                images.images@,
            ),
            takes_bare(info.caps) && self.roomy(*deps, primary, upgrade, info.caps) ==> made is Ok,
            takes_bare(info.caps) ==> (made matches Ok(images) ==> self.made_bare(
                *deps,
                primary,
                upgrade,
                info.caps,
                images,
            )),
    {
        let num_images = self.slots.len();
        let ghost devices = states(self.flash@);
        let ghost bare = takes_bare(info.caps);
        let ghost roomy = self.roomy(*deps, primary, upgrade, info.caps);
        let mut flash = self.flash;
        let mut images: Vec<OneImage> = Vec::new();
        let mut image_num: usize = 0;
        proof {
            lemma_bare_plain(*info);
            assert(all_wf(flash@));
            assert forall|id: u8| devices.contains_key(id) implies (#[trigger] devices[id]).wf() by {
                assert(flash@[id].wf());
            }
        }
        while image_num < num_images
            invariant
                image_num <= num_images,
                num_images == self.slots@.len(),
                self.wf(),
                info.wf(),
                all_wf(flash@),
                flash@.dom() == self.flash@.dom(),
                primary matches SlotContent::Image { len, bad_sig } ==> len <= 0x4000_0000,
                upgrade matches SlotContent::Image { len, bad_sig } ==> len <= 0x4000_0000,
                images@.len() == image_num,
                devices == states(self.flash@),
                bare == takes_bare(info.caps),
                roomy == self.roomy(*deps, primary, upgrade, info.caps),
                forall|id: u8| devices.contains_key(id) ==> (#[trigger] devices[id]).wf(),
                forall|k: int|
                    0 <= k < image_num ==> {
                        let image = #[trigger] images@[k];
                        &&& image.slots == self.slots@[k]
                        &&& !(primary is Image) ==> image.primaries.plain@.len() == 0
                            && image.primaries.cipher is None
                        &&& !(upgrade is Image && deps.depends[k] != DepType::NoUpgrade)
                            ==> image.upgrades.plain@.len() == 0 && image.upgrades.cipher is None
                    },
                same_kinds(devices, states(flash@)),
                self.images_made(
                    *deps,
                    primary,
                    upgrade,
                    info.caps,
                    *keys,
                    image_num as int,
                    images@,
                ),
                bare ==> same_shape(devices, states(flash@)),
                bare ==> self.images_only(
                    *deps,
                    primary,
                    upgrade,
                    info.caps,
                    image_num as int,
                    states(flash@),
                ),
                bare ==> self.images_sized(
                    *deps,
                    primary,
                    upgrade,
                    info.caps,
                    image_num as int,
                    images@,
                ),
                bare && roomy ==> self.images_placed(
                    *deps,
                    primary,
                    upgrade,
                    info.caps,
                    image_num as int,
                    states(flash@),
                    images@,
                ),
            decreases num_images - image_num,
        {
            let slots = &self.slots[image_num];
            assert(indexed(self.slots@[image_num as int]));
            let no_upgrade = match deps.depends[image_num] {
                DepType::NoUpgrade => true,
                _ => false,
            };
            let content = if no_upgrade {
                SlotContent::Nothing
            } else {
                upgrade
            };
            let ghost plan = self.plan(*deps, primary, upgrade, info.caps, image_num as int);
            let ghost now = states(flash@);
            let ghost before = images@;
            proof {
                if bare && roomy {
                    self.lemma_room_for_next(
                        *deps,
                        primary,
                        upgrade,
                        info.caps,
                        image_num as int,
                        now,
                    );
                }
            }
            let image = if num_images > 1 {
                let dep = PairDep::new(num_images, image_num, deps);
                assert(dependencies_on(dep.other(), dep.deps_of(slots[0].index)) =~= Seq::empty());
                assert(plan.declared.1 =~= dependencies_on(dep.other(), dep.deps_of(slots[1].index)));
                assert(plan == pair_plan(*slots, dep, primary, content, info.caps));
                install_pair(&mut flash, slots, &dep, primary, content, info, keys, wrapped)?
            } else {
                let dep = BoringDep::new(image_num, deps);
                assert(dependencies_on(dep.other(), dep.deps_of(slots[0].index)) =~= Seq::empty());
                assert(plan.declared.1 =~= dependencies_on(dep.other(), dep.deps_of(slots[1].index)));
                assert(plan == pair_plan(*slots, dep, primary, content, info.caps));
                install_pair(&mut flash, slots, &dep, primary, content, info, keys, wrapped)?
            };
            images.push(image);
            proof {
                assert(plan.made_both(*keys, now, image));
                assert(plan.primary is Image ==> devices.contains_key(plan.slots[0].dev_id));
                assert(plan.upgrade is Image ==> devices.contains_key(plan.slots[1].dev_id));
                assert(plan.made_both(*keys, devices, image));
                assert forall|k: int| 0 <= k < image_num + 1 implies self.plan(
                    *deps,
                    primary,
                    upgrade,
                    info.caps,
                    k,
                ).made_both(*keys, devices, #[trigger] images@[k]) by {
                    if k < image_num {
                        assert(images@[k] == before[k]);
                    }
                }
                if bare {
                    self.lemma_next_image(
                        *deps,
                        primary,
                        upgrade,
                        info.caps,
                        image_num as int,
                        now,
                        states(flash@),
                        before,
                        image,
                    );
                }
            }
            image_num = image_num + 1;
        }
        let images = Images { flash, areadesc: self.areadesc, images, total_count: None };
        proof {
            if bare && roomy {
                assert forall|k: int| 0 <= k < images.images@.len() implies slot_holds(
                    #[trigger] images.images@[k],
                    states(images.flash@),
                    0,
                    false,
                ) && slot_holds(images.images@[k], states(images.flash@), 1, false) by {
                    assert(self.plan(*deps, primary, upgrade, info.caps, k).placed(
                        devices,
                        states(images.flash@),
                        images.images@[k],
                    ));
                }
            }
        }
        images.confirm(info)?;
        proof {
            if bare {
                assert forall|k: int| 0 <= k < images.images@.len() implies self.plan(
                    *deps,
                    primary,
                    upgrade,
                    info.caps,
                    k,
                ).placed(devices, states(images.flash@), #[trigger] images.images@[k]) by {
                    assert(slot_holds(images.images@[k], states(images.flash@), 0, false));
                    assert(slot_holds(images.images@[k], states(images.flash@), 1, false));
                    assert(self.plan(*deps, primary, upgrade, info.caps, k).sized(
                        devices,
                        images.images@[k],
                    ));
                }
            }
        }
        Ok(images)
    }

    /// Construct an `Images` that doesn't expect an upgrade to happen: an
    /// image in each slot, but no slot marked for upgrade; and a partition
    /// table on each device that has room for it. The primary images have
    /// 42784 bytes and the upgrades 46928.
    ///
    /// For a bootloader that takes images that are neither signed nor
    /// encrypted, they are made wherever there is room for the images and
    /// for the tables.
    pub fn make_no_upgrade_image(
        self,
        deps: &DepTest,
        info: &BootInfo,
        keys: &KeyRing,
        wrapped: &Option<WrappedKey>,
    ) -> (made: Result<Images, Abort>)
        requires
            self.wf(),
            info.wf(),
        ensures
            made matches Ok(images) ==> self.images_made(
                *deps,
                SlotContent::Image { len: 42784, bad_sig: false },
                SlotContent::Image { len: 46928, bad_sig: false },
                info.caps,
                *keys,
                self.slots@.len() as int,
                images.images@,
            ),
            made matches Ok(images) ==> images_of(
                images,
                self,
                *info,
                |k: int| true,
                |k: int| deps.depends[k] != DepType::NoUpgrade,
            ),
            takes_bare(info.caps) && self.roomy(
                *deps,
                SlotContent::Image { len: 42784, bad_sig: false },
                SlotContent::Image { len: 46928, bad_sig: false },
                info.caps,
            ) && self.tables_room(
                *deps,
                SlotContent::Image { len: 42784, bad_sig: false },
                SlotContent::Image { len: 46928, bad_sig: false },
                info.caps,
            ) ==> made is Ok,
            takes_bare(info.caps) ==> (made matches Ok(images) ==> self.made_tabled(
                *deps,
                SlotContent::Image { len: 42784, bad_sig: false },
                SlotContent::Image { len: 46928, bad_sig: false },
                info.caps,
                images,
            )),
            made matches Ok(images) ==> exists|before: Map<u8, FlashState>| #[trigger]
                self.tables_added(*info, images.images@, before, states(images.flash@)) && (
                takes_bare(info.caps) ==> self.holds_bare(
                    *deps,
                    SlotContent::Image { len: 42784, bad_sig: false },
                    SlotContent::Image { len: 46928, bad_sig: false },
                    info.caps,
                    before,
                    images.images@,
                )),
    {
        let primary = SlotContent::Image { len: 42784, bad_sig: false };
        let upgrade = SlotContent::Image { len: 46928, bad_sig: false };
        let ghost devices = states(self.flash@);
        let ghost areas = self.areadesc@.whole;
        let ghost ids = device_ids(areas);
        let ghost count = self.slots@.len() as int;
        let ghost bare = takes_bare(info.caps);
        let ghost room = self.roomy(*deps, primary, upgrade, info.caps) && self.tables_room(
            *deps,
            primary,
            upgrade,
            info.caps,
        );
        proof {
            lemma_bare_plain(*info);
            assert forall|id: u8| devices.contains_key(id) implies (#[trigger] devices[id]).wf() by {
                assert(self.flash@[id].wf());
            }
        }
        let mut images = self.make_images(deps, primary, upgrade, info, keys, wrapped)?;
        let ghost now = states(images.flash@);
        let ghost placed = images.images@;
        proof {
            assert forall|id: u8| now.contains_key(id) implies (#[trigger] now[id]).wf() by {
                assert(images.flash@[id].wf());
            }
            if bare && room {
                lemma_device_ids_distinct(areas);
                assert forall|i: int| 0 <= i < ids.len() implies devices.contains_key(
                    #[trigger] ids[i],
                ) == now.contains_key(ids[i]) && (devices.contains_key(ids[i]) && !table_collides(
                    areas,
                    ids[i],
                ) ==> table_same(devices[ids[i]], now[ids[i]], areas, ids[i])) by {
                    if devices.contains_key(ids[i]) && !table_collides(areas, ids[i]) {
                        assert(self.clear_of_images(
                            *deps,
                            primary,
                            upgrade,
                            info.caps,
                            count,
                            ids[i],
                            0,
                            padded_table(areas, ids[i], devices[ids[i]].align).len() as int,
                        ));
                    }
                }
                lemma_tables_fit_same(ids, areas, devices, now, true);
            }
        }
        install_ptable(&mut images.flash, &images.areadesc)?;
        let ghost tabled = states(images.flash@);
        proof {
            if bare {
                lemma_tables_shape(ids, areas, now);
                assert forall|id: u8, off: int, len: int|
                    #![trigger same_there(devices[id], tabled[id], off, len)]
                    devices.contains_key(id) && 0 <= off && 0 <= len && self.clear_of_images(
                        *deps,
                        primary,
                        upgrade,
                        info.caps,
                        count,
                        id,
                        off,
                        len,
                    ) && clear_of_tables(ids, areas, devices, id, off, len) implies same_there(
                    devices[id],
                    tabled[id],
                    off,
                    len,
                ) by {
                    assert(same_there(devices[id], now[id], off, len));
                    lemma_tables_apart(ids, areas, now, id, off, len);
                    lemma_same_there_twice(devices[id], now[id], tabled[id], off, len);
                }
                if room {
                    assert forall|k: int, s: int|
                        0 <= k < count && 0 <= s < 2 && (#[trigger] self.plan(
                            *deps,
                            primary,
                            upgrade,
                            info.caps,
                            k,
                        ).content(s)) is Image implies same_there(
                        now[self.slots@[k][s].dev_id],
                        tabled[self.slots@[k][s].dev_id],
                        self.slots@[k][s].base_off as int,
                        self.plan(*deps, primary, upgrade, info.caps, k).span(devices, s) as int,
                    ) by {
                        let plan = self.plan(*deps, primary, upgrade, info.caps, k);
                        let id = self.slots@[k][s].dev_id;
                        let off = self.slots@[k][s].base_off as int;
                        let len = plan.span(devices, s) as int;
                        assert(plan.placed(devices, now, placed[k]));
                        if ids.contains(id) && !table_collides(areas, id) {
                            let i = choose|i: int| 0 <= i < ids.len() && ids[i] == id;
                            assert(self.clear_of_images(
                                *deps,
                                primary,
                                upgrade,
                                info.caps,
                                count,
                                ids[i],
                                0,
                                padded_table(areas, ids[i], devices[ids[i]].align).len() as int,
                            ));
                            assert(plan.clear_of(
                                devices,
                                id,
                                0,
                                padded_table(areas, id, devices[id].align).len() as int,
                            ));
                        }
                        lemma_tables_apart(ids, areas, now, id, off, len);
                    }
                    self.lemma_images_still(
                        *deps,
                        primary,
                        upgrade,
                        info.caps,
                        now,
                        tabled,
                        placed,
                    );
                    assert forall|k: int| 0 <= k < images.images@.len() implies slot_holds(
                        #[trigger] images.images@[k],
                        tabled,
                        0,
                        false,
                    ) && slot_holds(images.images@[k], tabled, 1, false) by {
                        assert(self.plan(*deps, primary, upgrade, info.caps, k).placed(
                            devices,
                            tabled,
                            images.images@[k],
                        ));
                    }
                }
            }
        }
        images.confirm(info)?;
        proof {
            if bare {
                assert forall|k: int| 0 <= k < count implies self.plan(
                    *deps,
                    primary,
                    upgrade,
                    info.caps,
                    k,
                ).placed(devices, tabled, #[trigger] images.images@[k]) by {
                    assert(slot_holds(images.images@[k], tabled, 0, false));
                    assert(slot_holds(images.images@[k], tabled, 1, false));
                    assert(self.plan(*deps, primary, upgrade, info.caps, k).placed(
                        devices,
                        now,
                        placed[k],
                    ));
                }
            }
        }
        proof {
            assert(self.tables_added(*info, images.images@, now, tabled));
        }
        Ok(images)
    }

    /// Construct an `Images` whose upgrade is marked to be tried: as
    /// `make_no_upgrade_image`, with the secondary slot of every image
    /// marked for upgrade.
    ///
    /// The number of flash operations that the upgrade takes is not known
    /// yet: it is counted by a run of the basic upgrade and recorded with
    /// `set_total_count`.
    ///
    /// For a bootloader that takes images that are neither signed nor
    /// encrypted, they are made wherever there is room for the images, for
    /// the tables and for the marks.
    #[verifier::rlimit(40)]
    pub fn make_image(
        self,
        deps: &DepTest,
        info: &BootInfo,
        keys: &KeyRing,
        wrapped: &Option<WrappedKey>,
    ) -> (made: Result<Images, Abort>)
        requires
            self.wf(),
            info.wf(),
        ensures
            made matches Ok(images) ==> self.images_made(
                *deps,
                SlotContent::Image { len: 42784, bad_sig: false },
                SlotContent::Image { len: 46928, bad_sig: false },
                info.caps,
                *keys,
                self.slots@.len() as int,
                images.images@,
            ),
            made matches Ok(images) ==> images_of(
                images,
                self,
                *info,
                |k: int| true,
                |k: int| deps.depends[k] != DepType::NoUpgrade,
            ),
            takes_bare(info.caps) && self.roomy(
                *deps,
                SlotContent::Image { len: 42784, bad_sig: false },
                SlotContent::Image { len: 46928, bad_sig: false },
                info.caps,
            ) && self.tables_room(
                *deps,
                SlotContent::Image { len: 42784, bad_sig: false },
                SlotContent::Image { len: 46928, bad_sig: false },
                info.caps,
            ) && self.marks_room(
                *deps,
                SlotContent::Image { len: 42784, bad_sig: false },
                SlotContent::Image { len: 46928, bad_sig: false },
                *info,
            ) ==> made is Ok,
            takes_bare(info.caps) ==> (made matches Ok(images) ==> same_shape(
                states(self.flash@),
                states(images.flash@),
            ) && self.images_placed(
                *deps,
                SlotContent::Image { len: 42784, bad_sig: false },
                SlotContent::Image { len: 46928, bad_sig: false },
                info.caps,
                self.slots@.len() as int,
                states(images.flash@),
                images.images@,
            )),
            made matches Ok(images) ==> exists|before: Map<u8, FlashState>| #[trigger]
                self.marks_added(*info, images.images@, before, states(images.flash@)) && (
                takes_bare(info.caps) ==> self.holds_tabled(
                    *deps,
                    SlotContent::Image { len: 42784, bad_sig: false },
                    SlotContent::Image { len: 46928, bad_sig: false },
                    info.caps,
                    before,
                    images.images@,
                )),
    {
        let ghost primary = SlotContent::Image { len: 42784, bad_sig: false };
        let ghost upgrade = SlotContent::Image { len: 46928, bad_sig: false };
        let ghost devices = states(self.flash@);
        let ghost areas = self.areadesc@.whole;
        let ghost ids = device_ids(areas);
        let ghost count = self.slots@.len() as int;
        let ghost bare = takes_bare(info.caps);
        let ghost room = self.roomy(*deps, primary, upgrade, info.caps) && self.tables_room(
            *deps,
            primary,
            upgrade,
            info.caps,
        ) && self.marks_room(*deps, primary, upgrade, *info);
        proof {
            lemma_bare_plain(*info);
        }
        let mut images = self.make_no_upgrade_image(deps, info, keys, wrapped)?;
        let ghost built = images;
        let ghost tabled = states(images.flash@);
        proof {
            if bare && room {
                assert forall|j: int| 0 <= j < count implies {
                    let slot = (#[trigger] self.slots@[j])[1];
                    let mark = mark_place(slot, *info, devices[slot.dev_id]).unwrap();
                    same_there(
                        devices[slot.dev_id],
                        tabled[slot.dev_id],
                        mark.0,
                        mark.1.len() as int,
                    )
                } by {
                    let slot = self.slots@[j][1];
                    assert(self.flash@[slot.dev_id].wf());
                    lemma_mark_inside(slot, *info, devices[slot.dev_id]);
                }
            }
        }
        let mut i: usize = 0;
        assert(images.images@.take(0).len() == 0);
        while i < images.images.len()
            invariant
                i <= images.images.len(),
                self.wf(),
                info.wf(),
                all_wf(images.flash@),
                images.flash@.dom() == built.flash@.dom(),
                images.areadesc == built.areadesc,
                images.images == built.images,
                images.total_count == built.total_count,
                images.images@.len() == count,
                count == self.slots@.len(),
                devices == states(self.flash@),
                states(images.flash@) == upgrades_marked(
                    images.images@.take(i as int),
                    1,
                    *info,
                    tabled,
                ),
                primary == (SlotContent::Image { len: 42784, bad_sig: false }),
                upgrade == (SlotContent::Image { len: 46928, bad_sig: false }),
                bare == takes_bare(info.caps),
                room == (self.roomy(*deps, primary, upgrade, info.caps) && self.tables_room(
                    *deps,
                    primary,
                    upgrade,
                    info.caps,
                ) && self.marks_room(*deps, primary, upgrade, *info)),
                forall|k: int| 0 <= k < count ==> (#[trigger] images.images@[k]).slots == self.slots@[k],
                bare ==> same_shape(devices, states(images.flash@)),
                bare ==> self.images_sized(*deps, primary, upgrade, info.caps, count, images.images@),
                bare && room ==> self.images_placed(
                    *deps,
                    primary,
                    upgrade,
                    info.caps,
                    count,
                    states(images.flash@),
                    images.images@,
                ),
                bare && room ==> forall|j: int|
                    i <= j < count ==> {
                        let slot = (#[trigger] self.slots@[j])[1];
                        let mark = mark_place(slot, *info, devices[slot.dev_id]).unwrap();
                        same_there(
                            devices[slot.dev_id],
                            states(images.flash@)[slot.dev_id],
                            mark.0,
                            mark.1.len() as int,
                        )
                    },
            decreases images.images.len() - i,
        {
            let place = images.images[i].slots[1];
            let ghost before = images.flash@;
            let ghost now = states(images.flash@);
            proof {
                assert(images.images@.take(i + 1).drop_last() =~= images.images@.take(i as int));
                assert(images.images@[i as int].slots == self.slots@[i as int]);
                if bare && room {
                    let slot = self.slots@[i as int][1];
                    assert(place == slot);
                    assert(before[slot.dev_id].wf());
                    assert(mark_place(slot, *info, devices[slot.dev_id]) is Some);
                }
            }
            mark_upgrade(&mut images.flash, &place, info)?;
            proof {
                lemma_changed_state(before, images.flash@, place.dev_id);
                if bare {
                    let next = states(images.flash@);
                    let mark = mark_place(place, *info, now[place.dev_id]).unwrap();
                    assert(next == now.insert(
                        place.dev_id,
                        now[place.dev_id].written(mark.0, mark.1),
                    ));
                    assert(before[place.dev_id].wf());
                    lemma_mark_inside(place, *info, now[place.dev_id]);
                    assert(same_shape(now, next));
                    if room {
                        assert forall|j: int| i + 1 <= j < count implies {
                            let slot = (#[trigger] self.slots@[j])[1];
                            let other = mark_place(slot, *info, devices[slot.dev_id]).unwrap();
                            same_there(
                                devices[slot.dev_id],
                                next[slot.dev_id],
                                other.0,
                                other.1.len() as int,
                            )
                        } by {
                            let slot = self.slots@[j][1];
                            let other = mark_place(slot, *info, devices[slot.dev_id]).unwrap();
                            assert(marks_apart(self.slots@[i as int][1], self.slots@[j][1], *info, devices));
                            assert(self.flash@[slot.dev_id].wf());
                            lemma_mark_inside(slot, *info, devices[slot.dev_id]);
                            if slot.dev_id == place.dev_id {
                                lemma_written_apart(
                                    now[place.dev_id],
                                    mark.0,
                                    mark.1,
                                    other.0,
                                    other.1.len() as int,
                                );
                            }
                            lemma_same_there_twice(
                                devices[slot.dev_id],
                                now[slot.dev_id],
                                next[slot.dev_id],
                                other.0,
                                other.1.len() as int,
                            );
                        }
                        assert forall|k: int, s: int|
                            0 <= k < count && 0 <= s < 2 && (#[trigger] self.plan(
                                *deps,
                                primary,
                                upgrade,
                                info.caps,
                                k,
                            ).content(s)) is Image implies same_there(
                            now[self.slots@[k][s].dev_id],
                            next[self.slots@[k][s].dev_id],
                            self.slots@[k][s].base_off as int,
                            self.plan(*deps, primary, upgrade, info.caps, k).span(devices, s) as int,
                        ) by {
                            let plan = self.plan(*deps, primary, upgrade, info.caps, k);
                            let id = self.slots@[k][s].dev_id;
                            assert(plan.placed(devices, now, images.images@[k]));
                            assert(self.clear_of_images(
                                *deps,
                                primary,
                                upgrade,
                                info.caps,
                                count,
                                place.dev_id,
                                mark.0,
                                mark.1.len() as int,
                            ));
                            assert(plan.clear_of(devices, place.dev_id, mark.0, mark.1.len() as int));
                            if id == place.dev_id {
                                lemma_written_apart(
                                    now[place.dev_id],
                                    mark.0,
                                    mark.1,
                                    self.slots@[k][s].base_off as int,
                                    plan.span(devices, s) as int,
                                );
                            }
                        }
                        self.lemma_images_still(
                            *deps,
                            primary,
                            upgrade,
                            info.caps,
                            now,
                            next,
                            images.images@,
                        );
                    }
                }
            }
            i = i + 1;
        }
        proof {
            if bare && room {
                assert forall|k: int| 0 <= k < images.images@.len() implies slot_holds(
                    #[trigger] images.images@[k],
                    states(images.flash@),
                    0,
                    false,
                ) && slot_holds(images.images@[k], states(images.flash@), 1, false) by {
                    assert(self.plan(*deps, primary, upgrade, info.caps, k).placed(
                        devices,
                        states(images.flash@),
                        images.images@[k],
                    ));
                }
            }
        }
        images.confirm(info)?;
        proof {
            if bare {
                assert forall|k: int| 0 <= k < count implies self.plan(
                    *deps,
                    primary,
                    upgrade,
                    info.caps,
                    k,
                ).placed(devices, states(images.flash@), #[trigger] images.images@[k]) by {
                    assert(slot_holds(images.images@[k], states(images.flash@), 0, false));
                    assert(slot_holds(images.images@[k], states(images.flash@), 1, false));
                    assert(self.plan(*deps, primary, upgrade, info.caps, k).sized(
                        devices,
                        images.images@[k],
                    ));
                }
            }
        }
        proof {
            assert(images.images@.take(count) =~= images.images@);
            assert(self.marks_added(*info, images.images@, tabled, states(images.flash@)));
        }
        Ok(images)
    }

    /// Images whose upgrade bears a bad signature: a primary image of
    /// 32784 bytes and an upgrade of 41928 bytes, with no dependencies.
    ///
    /// For a bootloader that takes images that are neither signed nor
    /// encrypted, they are made wherever there is room for them.
    pub fn make_bad_secondary_slot_image(
        self,
        info: &BootInfo,
        keys: &KeyRing,
        wrapped: &Option<WrappedKey>,
    ) -> (made: Result<Images, Abort>)
        requires
            self.wf(),
            info.wf(),
            self.slots@.len() <= 1,
        ensures
            made matches Ok(images) ==> self.images_made(
                plain_test(),
                SlotContent::Image { len: 32784, bad_sig: false },
                SlotContent::Image { len: 41928, bad_sig: true },
                info.caps,
                *keys,
                self.slots@.len() as int,
                images.images@,
            ),
            made matches Ok(images) ==> images_of(images, self, *info, |k: int| true, |k: int| true),
            takes_bare(info.caps) && self.roomy(
                plain_test(),
                SlotContent::Image { len: 32784, bad_sig: false },
                SlotContent::Image { len: 41928, bad_sig: true },
                info.caps,
            ) ==> made is Ok,
            takes_bare(info.caps) ==> (made matches Ok(images) ==> self.made_bare(
                plain_test(),
                SlotContent::Image { len: 32784, bad_sig: false },
                SlotContent::Image { len: 41928, bad_sig: true },
                info.caps,
                images,
            )),
    {
        self.make_images(
            &no_deps(),
            SlotContent::Image { len: 32784, bad_sig: false },
            SlotContent::Image { len: 41928, bad_sig: true },
            info,
            keys,
            wrapped,
        )
    }

    /// Images with nothing in the secondary slot: a primary image of 32784
    /// bytes, with no dependencies.
    ///
    /// For a bootloader that takes images that are neither signed nor
    /// encrypted, they are made wherever there is room for them.
    pub fn make_erased_secondary_image(
        self,
        info: &BootInfo,
        keys: &KeyRing,
        wrapped: &Option<WrappedKey>,
    ) -> (made: Result<Images, Abort>)
        requires
            self.wf(),
            info.wf(),
            self.slots@.len() <= 1,
        ensures
            made matches Ok(images) ==> self.images_made(
                plain_test(),
                SlotContent::Image { len: 32784, bad_sig: false },
                SlotContent::Nothing,
                info.caps,
                *keys,
                self.slots@.len() as int,
                images.images@,
            ),
            made matches Ok(images) ==> images_of(
                images,
                self,
                *info,
                |k: int| true,
                |k: int| false,
            ),
            takes_bare(info.caps) && self.roomy(
                plain_test(),
                SlotContent::Image { len: 32784, bad_sig: false },
                SlotContent::Nothing,
                info.caps,
            ) ==> made is Ok,
            takes_bare(info.caps) ==> (made matches Ok(images) ==> self.made_bare(
                plain_test(),
                SlotContent::Image { len: 32784, bad_sig: false },
                SlotContent::Nothing,
                info.caps,
                images,
            )),
    {
        self.make_images(
            &no_deps(),
            SlotContent::Image { len: 32784, bad_sig: false },
            SlotContent::Nothing,
            info,
            keys,
            wrapped,
        )
    }

    /// Images with nothing in the primary slot: an upgrade of 32784 bytes,
    /// with no dependencies.
    ///
    /// For a bootloader that takes images that are neither signed nor
    /// encrypted, they are made wherever there is room for them.
    pub fn make_bootstrap_image(
        self,
        info: &BootInfo,
        keys: &KeyRing,
        wrapped: &Option<WrappedKey>,
    ) -> (made: Result<Images, Abort>)
        requires
            self.wf(),
            info.wf(),
            self.slots@.len() <= 1,
        ensures
            made matches Ok(images) ==> self.images_made(
                plain_test(),
                SlotContent::Nothing,
                SlotContent::Image { len: 32784, bad_sig: false },
                info.caps,
                *keys,
                self.slots@.len() as int,
                images.images@,
            ),
            made matches Ok(images) ==> images_of(
                images,
                self,
                *info,
                |k: int| false,
                |k: int| true,
            ),
            takes_bare(info.caps) && self.roomy(
                plain_test(),
                SlotContent::Nothing,
                SlotContent::Image { len: 32784, bad_sig: false },
                info.caps,
            ) ==> made is Ok,
            takes_bare(info.caps) ==> (made matches Ok(images) ==> self.made_bare(
                plain_test(),
                SlotContent::Nothing,
                SlotContent::Image { len: 32784, bad_sig: false },
                info.caps,
                images,
            )),
    {
        self.make_images(
            &no_deps(),
            SlotContent::Nothing,
            SlotContent::Image { len: 32784, bad_sig: false },
            info,
            keys,
            wrapped,
        )
    }

    /// The configurations that the tests are run on: every device, with
    /// every write alignment and with both erased values, as (device,
    /// alignment, erased value).
    pub fn each_device() -> (configs: Vec<(DeviceName, usize, u8)>)
        ensures
            configs@.len() == 56,
            forall|d: int, a: int, e: int|
                0 <= d < 7 && 0 <= a < 4 && 0 <= e < 2 ==> #[trigger] configs@[d * 8 + a * 2 + e]
                    == (
                    crate::device::all_devices_spec()[d],
                    crate::device::alignments_spec()[a],
                    if e == 0 {
                        0u8
                    } else {
                        0xffu8
                    },
                ),
    {
        let devices = crate::device::all_devices();
        let aligns = crate::device::test_alignments();
        let mut configs: Vec<(DeviceName, usize, u8)> = Vec::new();
        let mut d: usize = 0;
        while d < 7
            invariant
                d <= 7,
                devices@ == crate::device::all_devices_spec(),
                aligns@ == crate::device::alignments_spec(),
                configs@.len() == d * 8,
                forall|dd: int, a: int, e: int|
                    0 <= dd < d && 0 <= a < 4 && 0 <= e < 2 ==> #[trigger] configs@[dd * 8 + a * 2
                        + e] == (devices@[dd], aligns@[a], if e == 0 {
                        0u8
                    } else {
                        0xffu8
                    }),
            decreases 7 - d,
        {
            let mut a: usize = 0;
            while a < 4
                invariant
                    a <= 4,
                    d < 7,
                    devices@ == crate::device::all_devices_spec(),
                    aligns@ == crate::device::alignments_spec(),
                    configs@.len() == d * 8 + a * 2,
                    forall|dd: int, aa: int, e: int|
                        0 <= dd < d && 0 <= aa < 4 && 0 <= e < 2 ==> #[trigger] configs@[dd * 8 + aa
                            * 2 + e] == (devices@[dd], aligns@[aa], if e == 0 {
                            0u8
                        } else {
                            0xffu8
                        }),
                    forall|aa: int, e: int|
                        0 <= aa < a && 0 <= e < 2 ==> #[trigger] configs@[d * 8 + aa * 2 + e] == (
                            devices@[d as int],
                            aligns@[aa],
                            if e == 0 {
                                0u8
                            } else {
                                0xffu8
                            },
                        ),
                decreases 4 - a,
            {
                configs.push((devices[d], aligns[a], 0));
                configs.push((devices[d], aligns[a], 0xff));
                a = a + 1;
            }
            d = d + 1;
        }
        configs
    }
}

} // verus!
