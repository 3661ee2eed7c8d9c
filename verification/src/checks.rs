//! The images of a configuration, and what the scenarios do to all of them
//! and look for in all of them.

use crate::area::AreaDesc;
use crate::caps::{BootInfo, Caps};
use crate::depends::{DepTest, UpgradeInfo};
use crate::flash::{BadRegion, FlashState, SimFlash};
use crate::image::{all_wf, only_changed, Abort, ImageData, SimMultiFlash, SlotInfo};
use crate::install::{
    mark_permanent_upgrade, mark_upgrade, permanent_mark, trailer_matches, trailer_window,
    upgrade_mark, verify_image, verify_trailer,
};
use vstd::prelude::*;

verus! {

broadcast use vstd::std_specs::hash::group_hash_axioms;

/// When doing multi-image, there is an instance of this information for
/// each of the images.  Single image there will be one of these.
pub struct OneImage {
    pub slots: [SlotInfo; 2],
    pub primaries: ImageData,
    pub upgrades: ImageData,
}

impl OneImage {
    /// The image that was installed in the primary slot, or the one that was
    /// installed as the upgrade.
    pub open spec fn installed(&self, against: usize) -> ImageData {
        if against == 0 {
            self.primaries
        } else {
            self.upgrades
        }
    }
}

/// Images represents the state of a simulation for a given set of images.
/// The flash holds the state of the simulated flash, whereas primaries
/// and upgrades hold the expected contents of these images.
pub struct Images {
    pub flash: SimMultiFlash,
    pub areadesc: AreaDesc,
    pub images: Vec<OneImage>,
    pub total_count: Option<i32>,
}

impl Images {
    /// The devices and the area table are well formed.
    pub open spec fn wf(&self) -> bool {
        all_wf(self.flash@) && self.areadesc.wf()
    }
}

/// What each device holds.
pub open spec fn states(devices: Map<u8, SimFlash>) -> Map<u8, FlashState> {
    devices.map_values(|dev: SimFlash| dev@)
}

/// Where a device of `before` has changed into `after`, the states are
/// those of before with that device's state replaced.
pub proof fn lemma_changed_state(before: Map<u8, SimFlash>, after: Map<u8, SimFlash>, id: u8)
    requires
        only_changed(before, after, id),
        before.contains_key(id),
    ensures
        states(after) == states(before).insert(id, after[id]@),
{
    assert(states(after) =~= states(before).insert(id, after[id]@));
}

/// Image `image`, slot `slot`, holds what was installed as `against`.
pub open spec fn image_found(
    image: OneImage,
    devices: Map<u8, FlashState>,
    slot: usize,
    against: usize,
    encrypts: bool,
) -> bool {
    let place = image.slots[slot as int];
    let want = image.installed(against).expected(encrypts, place.index);
    &&& devices.contains_key(place.dev_id)
    &&& devices[place.dev_id].can_read(place.base_off as int, want.len() as int)
    &&& devices[place.dev_id].data.subrange(place.base_off as int, place.base_off + want.len())
        == want
}

/// Slot `slot` of image `image` can be compared with what was installed as
/// `against`: there is an image to expect, and the slot's device is there
/// and holds as many bytes as the image has.
pub open spec fn image_checkable(
    image: OneImage,
    devices: Map<u8, FlashState>,
    slot: usize,
    against: usize,
    encrypts: bool,
) -> bool {
    let place = image.slots[slot as int];
    let installed = image.installed(against);
    &&& installed.findable(encrypts, place.index)
    &&& devices.contains_key(place.dev_id)
    &&& devices[place.dev_id].can_read(
        place.base_off as int,
        installed.expected(encrypts, place.index).len() as int,
    )
}

/// The trailer of slot `slot` of image `image` can be read.
pub open spec fn trailer_checkable(
    image: OneImage,
    devices: Map<u8, FlashState>,
    slot: usize,
    info: BootInfo,
) -> bool {
    let place = image.slots[slot as int];
    let (at, len) = trailer_window(place.trailer_off, info);
    Caps::OverwriteUpgrade.in_set(info.caps) || (devices.contains_key(place.dev_id)
        && devices[place.dev_id].can_read(at, len))
}

/// Every image, in slot `slot`, holds what was installed as `against`.
pub open spec fn images_found(
    images: Seq<OneImage>,
    devices: Map<u8, FlashState>,
    slot: usize,
    against: usize,
    encrypts: bool,
) -> bool {
    forall|k: int|
        0 <= k < images.len() ==> image_found(#[trigger] images[k], devices, slot, against, encrypts)
}

/// The trailer of image `image`, slot `slot`, holds what is expected.
pub open spec fn trailer_found(
    image: OneImage,
    devices: Map<u8, FlashState>,
    slot: usize,
    magic: Option<u8>,
    image_ok: Option<u8>,
    copy_done: Option<u8>,
    info: BootInfo,
) -> bool {
    let place = image.slots[slot as int];
    let (at, len) = trailer_window(place.trailer_off, info);
    Caps::OverwriteUpgrade.in_set(info.caps) || (devices.contains_key(place.dev_id)
        && devices[place.dev_id].can_read(at, len) && trailer_matches(
        devices[place.dev_id].data.subrange(at, at + len),
        devices[place.dev_id].erased_val,
        magic,
        image_ok,
        copy_done,
    ))
}

/// The trailers of all images, slot `slot`, hold what is expected.
pub open spec fn trailers_found(
    images: Seq<OneImage>,
    devices: Map<u8, FlashState>,
    slot: usize,
    magic: Option<u8>,
    image_ok: Option<u8>,
    copy_done: Option<u8>,
    info: BootInfo,
) -> bool {
    forall|k: int|
        0 <= k < images.len() ==> trailer_found(
            #[trigger] images[k],
            devices,
            slot,
            magic,
            image_ok,
            copy_done,
            info,
        )
}

/// The trailer of some image, slot `slot`, holds what is expected.
pub open spec fn some_trailer_found(
    images: Seq<OneImage>,
    devices: Map<u8, FlashState>,
    slot: usize,
    magic: Option<u8>,
    image_ok: Option<u8>,
    copy_done: Option<u8>,
    info: BootInfo,
) -> bool {
    exists|k: int|
        0 <= k < images.len() && trailer_found(
            #[trigger] images[k],
            devices,
            slot,
            magic,
            image_ok,
            copy_done,
            info,
        )
}

/// What the test `deps` expects in the primary slot of image `k`: the
/// upgrade where the image is to be upgraded, what was there where it is to
/// be held.
pub open spec fn expected_after(deps: DepTest, k: int) -> usize {
    if deps.upgrades[k] == UpgradeInfo::Upgraded {
        1
    } else {
        0
    }
}

/// Each of the first two images holds in its primary slot what the test
/// `deps` expects there.
pub open spec fn deps_found(
    images: Seq<OneImage>,
    devices: Map<u8, FlashState>,
    deps: DepTest,
    encrypts: bool,
) -> bool {
    forall|k: int|
        0 <= k < images.len() && k < 2 ==> image_found(
            #[trigger] images[k],
            devices,
            0,
            expected_after(deps, k),
            encrypts,
        )
}

/// The devices after the upgrade mark has been written for the slot `slot`
/// of each of `images`.
pub open spec fn upgrades_marked(
    images: Seq<OneImage>,
    slot: usize,
    info: BootInfo,
    devices: Map<u8, FlashState>,
) -> Map<u8, FlashState>
    decreases images.len(),
{
    if images.len() == 0 {
        devices
    } else {
        let before = upgrades_marked(images.drop_last(), slot, info, devices);
        let place = images.last().slots[slot as int];
        let dev = before[place.dev_id];
        let mark = upgrade_mark(
            place.trailer_off + info.max_align * 4,
            dev.align as int,
            dev.erased_val,
        ).unwrap();
        before.insert(place.dev_id, dev.written(mark.0, mark.1))
    }
}

/// The devices after the mark of a permanent upgrade has been written for
/// the slot `slot` of each of `images`; nothing is written for a bootloader
/// that overwrites.
pub open spec fn permanents_marked(
    images: Seq<OneImage>,
    slot: usize,
    info: BootInfo,
    devices: Map<u8, FlashState>,
) -> Map<u8, FlashState>
    decreases images.len(),
{
    if images.len() == 0 || Caps::OverwriteUpgrade.in_set(info.caps) {
        devices
    } else {
        let before = permanents_marked(images.drop_last(), slot, info, devices);
        let place = images.last().slots[slot as int];
        let dev = before[place.dev_id];
        before.insert(
            place.dev_id,
            dev.written(
                place.trailer_off + info.max_align * 3,
                permanent_mark(dev.align as int, dev.erased_val),
            ),
        )
    }
}

/// The devices after the status area of the slot `slot` of each of `images`
/// has been made a bad region with the rate `rate`: the area of
/// `info.status_sz` bytes that begins `info.trailer_sz` bytes before the end
/// of the slot. A rate that is out of range adds nothing; a bootloader
/// that overwrites has no status area.
pub open spec fn status_marked_bad(
    images: Seq<OneImage>,
    slot: usize,
    rate: u32,
    info: BootInfo,
    devices: Map<u8, FlashState>,
) -> Map<u8, FlashState>
    decreases images.len(),
{
    if images.len() == 0 || Caps::OverwriteUpgrade.in_set(info.caps) {
        devices
    } else {
        let before = status_marked_bad(images.drop_last(), slot, rate, info, devices);
        let place = images.last().slots[slot as int];
        let dev = before[place.dev_id];
        if crate::flash::rate_in_range(rate) {
            before.insert(
                place.dev_id,
                dev.with_bad_region(
                    BadRegion {
                        off: (place.base_off + place.len - info.trailer_sz) as usize,
                        len: info.status_sz,
                        rate,
                    },
                ),
            )
        } else {
            before
        }
    }
}

/// The devices after the bad regions of the device of the slot `slot` of
/// each of `images` have been removed and its write verification turned
/// off; nothing changes for a bootloader that does not validate the primary
/// slot.
pub open spec fn status_reset(
    images: Seq<OneImage>,
    slot: usize,
    info: BootInfo,
    devices: Map<u8, FlashState>,
) -> Map<u8, FlashState>
    decreases images.len(),
{
    if images.len() == 0 || !Caps::ValidatePrimarySlot.in_set(info.caps) {
        devices
    } else {
        let before = status_reset(images.drop_last(), slot, info, devices);
        let place = images.last().slots[slot as int];
        let dev = before[place.dev_id];
        before.insert(
            place.dev_id,
            FlashState { bad_regions: Seq::empty(), verify_writes: false, ..dev },
        )
    }
}

/// The upgrade mark can be written for the slot at `place`, and no bad
/// region can fail the write.
pub open spec fn upgrade_markable(place: SlotInfo, info: BootInfo, devices: Map<u8, FlashState>)
    -> bool {
    let dev = devices[place.dev_id];
    let at = place.trailer_off + info.max_align * 4;
    &&& devices.contains_key(place.dev_id)
    &&& at <= usize::MAX
    &&& match upgrade_mark(at, dev.align as int, dev.erased_val) {
        Some((to, bytes)) => dev.can_write(to, bytes.len() as int) && !dev.may_fail(
            to,
            bytes.len() as int,
        ),
        None => false,
    }
}

/// The upgrade mark can be written for the slot `slot` of each of `images`,
/// one after the other.
pub open spec fn upgrades_markable(
    images: Seq<OneImage>,
    slot: usize,
    info: BootInfo,
    devices: Map<u8, FlashState>,
) -> bool
    decreases images.len(),
{
    images.len() == 0 || (upgrades_markable(images.drop_last(), slot, info, devices)
        && upgrade_markable(
        images.last().slots[slot as int],
        info,
        upgrades_marked(images.drop_last(), slot, info, devices),
    ))
}

/// The mark of a permanent upgrade can be written for the slot at `place`,
/// and no bad region can fail the write.
pub open spec fn permanent_markable(place: SlotInfo, info: BootInfo, devices: Map<u8, FlashState>)
    -> bool {
    let dev = devices[place.dev_id];
    let at = place.trailer_off + info.max_align * 3;
    &&& devices.contains_key(place.dev_id)
    &&& dev.align <= 8
    &&& at <= usize::MAX
    &&& dev.can_write(at, dev.align as int)
    &&& !dev.may_fail(at, dev.align as int)
}

/// The mark of a permanent upgrade can be written for the slot `slot` of
/// each of `images`, one after the other; for a bootloader that overwrites
/// there is nothing to write.
pub open spec fn permanents_markable(
    images: Seq<OneImage>,
    slot: usize,
    info: BootInfo,
    devices: Map<u8, FlashState>,
) -> bool
    decreases images.len(),
{
    images.len() == 0 || Caps::OverwriteUpgrade.in_set(info.caps) || (permanents_markable(
        images.drop_last(),
        slot,
        info,
        devices,
    ) && permanent_markable(
        images.last().slots[slot as int],
        info,
        permanents_marked(images.drop_last(), slot, info, devices),
    ))
}

/// The status area of the slot `slot` of each of `images` lies in a device
/// that is there.
pub open spec fn status_reachable(
    images: Seq<OneImage>,
    slot: usize,
    info: BootInfo,
    devices: Map<u8, FlashState>,
) -> bool {
    forall|k: int|
        0 <= k < images.len() ==> {
            let place = (#[trigger] images[k]).slots[slot as int];
            &&& devices.contains_key(place.dev_id)
            &&& info.trailer_sz <= place.base_off + place.len <= usize::MAX
        }
}

/// The device of the slot `slot` of each of `images` is there.
pub open spec fn devices_present(images: Seq<OneImage>, slot: usize, devices: Map<u8, FlashState>)
    -> bool {
    forall|k: int|
        0 <= k < images.len() ==> devices.contains_key(
            (#[trigger] images[k]).slots[slot as int].dev_id,
        )
}

/// What can be marked for all of some images can be marked for the first
/// `n` of them.
pub proof fn lemma_upgrades_markable_prefix(
    images: Seq<OneImage>,
    n: int,
    slot: usize,
    info: BootInfo,
    devices: Map<u8, FlashState>,
)
    requires
        0 <= n <= images.len(),
        upgrades_markable(images, slot, info, devices),
    ensures
        upgrades_markable(images.take(n), slot, info, devices),
    decreases images.len() - n,
{
    if n < images.len() {
        assert(images.drop_last().take(n) =~= images.take(n));
        lemma_upgrades_markable_prefix(images.drop_last(), n, slot, info, devices);
    } else {
        assert(images.take(n) =~= images);
    }
}

/// What can be marked permanent for all of some images can be marked for
/// the first `n` of them.
pub proof fn lemma_permanents_markable_prefix(
    images: Seq<OneImage>,
    n: int,
    slot: usize,
    info: BootInfo,
    devices: Map<u8, FlashState>,
)
    requires
        0 <= n <= images.len(),
        permanents_markable(images, slot, info, devices),
    ensures
        permanents_markable(images.take(n), slot, info, devices),
    decreases images.len() - n,
{
    if Caps::OverwriteUpgrade.in_set(info.caps) {
    } else if n < images.len() {
        assert(images.drop_last().take(n) =~= images.take(n));
        lemma_permanents_markable_prefix(images.drop_last(), n, slot, info, devices);
    } else {
        assert(images.take(n) =~= images);
    }
}

impl Images {
    /// Verify the image in the given flash device, the specified slot
    /// against the expected image.
    pub fn verify_images(
        &self,
        flash: &SimMultiFlash,
        slot: usize,
        against: usize,
        info: &BootInfo,
    ) -> (found: Result<bool, Abort>)
        requires
            all_wf(flash@),
            slot < 2,
        ensures
            found matches Ok(all) ==> all == images_found(
                self.images@,
                states(flash@),
                slot,
                against,
                info.encrypts(),
            ),
            (forall|k: int|
                0 <= k < self.images@.len() ==> image_checkable(
                    #[trigger] self.images@[k],
                    states(flash@),
                    slot,
                    against,
                    info.encrypts(),
                )) ==> found is Ok,
    {
        let mut i: usize = 0;
        while i < self.images.len()
            invariant
                i <= self.images.len(),
                all_wf(flash@),
                slot < 2,
                forall|k: int|
                    0 <= k < i ==> image_found(
                        #[trigger] self.images@[k],
                        states(flash@),
                        slot,
                        against,
                        info.encrypts(),
                    ),
            decreases self.images.len() - i,
        {
            let image = &self.images[i];
            let installed = if against == 0 {
                &image.primaries
            } else {
                &image.upgrades
            };
            let place = &image.slots[slot];
            if info.is_encrypted() && !(place.index == 0 || (place.index == 1
                && installed.cipher.is_some())) {
                assert(!image_checkable(
                    self.images@[i as int],
                    states(flash@),
                    slot,
                    against,
                    info.encrypts(),
                ));
                return Err(Abort::NoImage);
            }
            let same = match verify_image(flash, place, installed, info) {
                Ok(same) => same,
                Err(e) => {
                    assert(!image_checkable(
                        self.images@[i as int],
                        states(flash@),
                        slot,
                        against,
                        info.encrypts(),
                    ));
                    return Err(e);
                },
            };
            if !same {
                assert(!image_found(
                    self.images@[i as int],
                    states(flash@),
                    slot,
                    against,
                    info.encrypts(),
                ));
                return Ok(false);
            }
            i = i + 1;
        }
        Ok(true)
    }

    /// Verify the images, according to the dependency test: whether each
    /// image holds in its primary slot what the test expects there.
    pub fn verify_dep_images(&self, flash: &SimMultiFlash, deps: &DepTest, info: &BootInfo) -> (found:
        Result<bool, Abort>)
        requires
            all_wf(flash@),
        ensures
            found matches Ok(all) ==> all == deps_found(
                self.images@,
                states(flash@),
                *deps,
                info.encrypts(),
            ),
            (forall|k: int|
                0 <= k < self.images@.len() && k < 2 ==> image_checkable(
                    #[trigger] self.images@[k],
                    states(flash@),
                    0,
                    expected_after(*deps, k),
                    info.encrypts(),
                )) ==> found is Ok,
    {
        let mut i: usize = 0;
        while i < self.images.len() && i < 2
            invariant
                i <= self.images.len(),
                i <= 2,
                all_wf(flash@),
                forall|k: int|
                    0 <= k < i ==> image_found(
                        #[trigger] self.images@[k],
                        states(flash@),
                        0,
                        expected_after(*deps, k),
                        info.encrypts(),
                    ),
            decreases self.images.len() - i,
        {
            let image = &self.images[i];
            let upgraded = match deps.upgrades[i] {
                UpgradeInfo::Upgraded => true,
                UpgradeInfo::Held => false,
            };
            let installed = if upgraded {
                &image.upgrades
            } else {
                &image.primaries
            };
            let place = &image.slots[0];
            if info.is_encrypted() && !(place.index == 0 || (place.index == 1
                && installed.cipher.is_some())) {
                assert(!image_checkable(
                    self.images@[i as int],
                    states(flash@),
                    0,
                    expected_after(*deps, i as int),
                    info.encrypts(),
                ));
                return Err(Abort::NoImage);
            }
            let same = match verify_image(flash, place, installed, info) {
                Ok(same) => same,
                Err(e) => {
                    assert(!image_checkable(
                        self.images@[i as int],
                        states(flash@),
                        0,
                        expected_after(*deps, i as int),
                        info.encrypts(),
                    ));
                    return Err(e);
                },
            };
            if !same {
                assert(!image_found(
                    self.images@[i as int],
                    states(flash@),
                    0,
                    expected_after(*deps, i as int),
                    info.encrypts(),
                ));
                return Ok(false);
            }
            i = i + 1;
        }
        Ok(true)
    }

    /// Verify that the trailers of the images have the specified
    /// values.
    pub fn verify_trailers(
        &self,
        flash: &SimMultiFlash,
        slot: usize,
        magic: Option<u8>,
        image_ok: Option<u8>,
        copy_done: Option<u8>,
        info: &BootInfo,
    ) -> (found: Result<bool, Abort>)
        requires
            all_wf(flash@),
            info.wf(),
            slot < 2,
        ensures
            found matches Ok(all) ==> all == trailers_found(
                self.images@,
                states(flash@),
                slot,
                magic,
                image_ok,
                copy_done,
                *info,
            ),
            (forall|k: int|
                0 <= k < self.images@.len() ==> trailer_checkable(
                    #[trigger] self.images@[k],
                    states(flash@),
                    slot,
                    *info,
                )) ==> found is Ok,
    {
        let mut i: usize = 0;
        while i < self.images.len()
            invariant
                i <= self.images.len(),
                all_wf(flash@),
                info.wf(),
                slot < 2,
                forall|k: int|
                    0 <= k < i ==> trailer_found(
                        #[trigger] self.images@[k],
                        states(flash@),
                        slot,
                        magic,
                        image_ok,
                        copy_done,
                        *info,
                    ),
            decreases self.images.len() - i,
        {
            let image = &self.images[i];
            let good = match verify_trailer(
                flash,
                &image.slots[slot],
                magic,
                image_ok,
                copy_done,
                info,
            ) {
                Ok(good) => good,
                Err(e) => {
                    assert(!trailer_checkable(
                        self.images@[i as int],
                        states(flash@),
                        slot,
                        *info,
                    ));
                    return Err(e);
                },
            };
            if !good {
                assert(!trailer_found(
                    self.images@[i as int],
                    states(flash@),
                    slot,
                    magic,
                    image_ok,
                    copy_done,
                    *info,
                ));
                return Ok(false);
            }
            i = i + 1;
        }
        Ok(true)
    }

    /// Verify that at least one of the trailers of the images have the
    /// specified values.
    pub fn verify_trailers_loose(
        &self,
        flash: &SimMultiFlash,
        slot: usize,
        magic: Option<u8>,
        image_ok: Option<u8>,
        copy_done: Option<u8>,
        info: &BootInfo,
    ) -> (found: Result<bool, Abort>)
        requires
            all_wf(flash@),
            info.wf(),
            slot < 2,
        ensures
            found matches Ok(any) ==> any == some_trailer_found(
                self.images@,
                states(flash@),
                slot,
                magic,
                image_ok,
                copy_done,
                *info,
            ),
            (forall|k: int|
                0 <= k < self.images@.len() ==> trailer_checkable(
                    #[trigger] self.images@[k],
                    states(flash@),
                    slot,
                    *info,
                )) ==> found is Ok,
    {
        let mut i: usize = 0;
        while i < self.images.len()
            invariant
                i <= self.images.len(),
                all_wf(flash@),
                info.wf(),
                slot < 2,
                forall|k: int|
                    0 <= k < i ==> !trailer_found(
                        #[trigger] self.images@[k],
                        states(flash@),
                        slot,
                        magic,
                        image_ok,
                        copy_done,
                        *info,
                    ),
            decreases self.images.len() - i,
        {
            let image = &self.images[i];
            let good = match verify_trailer(
                flash,
                &image.slots[slot],
                magic,
                image_ok,
                copy_done,
                info,
            ) {
                Ok(good) => good,
                Err(e) => {
                    assert(!trailer_checkable(
                        self.images@[i as int],
                        states(flash@),
                        slot,
                        *info,
                    ));
                    return Err(e);
                },
            };
            if good {
                assert(trailer_found(
                    self.images@[i as int],
                    states(flash@),
                    slot,
                    magic,
                    image_ok,
                    copy_done,
                    *info,
                ));
                return Ok(true);
            }
            i = i + 1;
        }
        Ok(false)
    }

    /// Mark each of the images for upgrade.
    pub fn mark_upgrades(&self, flash: &mut SimMultiFlash, slot: usize, info: &BootInfo) -> (done:
        Result<(), Abort>)
        requires
            all_wf(old(flash)@),
            info.wf(),
            slot < 2,
        ensures
            all_wf(final(flash)@),
            final(flash)@.dom() == old(flash)@.dom(),
            done is Ok ==> states(final(flash)@) == upgrades_marked(
                self.images@,
                slot,
                *info,
                states(old(flash)@),
            ),
            upgrades_markable(self.images@, slot, *info, states(old(flash)@)) ==> done is Ok,
    {
        let mut i: usize = 0;
        while i < self.images.len()
            invariant
                i <= self.images.len(),
                all_wf(flash@),
                info.wf(),
                slot < 2,
                flash@.dom() == old(flash)@.dom(),
                states(flash@) == upgrades_marked(
                    self.images@.take(i as int),
                    slot,
                    *info,
                    states(old(flash)@),
                ),
            decreases self.images.len() - i,
        {
            let ghost before = flash@;
            let place = &self.images[i].slots[slot];
            proof {
                assert(self.images@.take(i + 1).drop_last() =~= self.images@.take(i as int));
                if upgrades_markable(self.images@, slot, *info, states(old(flash)@)) {
                    lemma_upgrades_markable_prefix(
                        self.images@,
                        i + 1,
                        slot,
                        *info,
                        states(old(flash)@),
                    );
                    assert(upgrade_markable(*place, *info, states(before)));
                }
            }
            match mark_upgrade(flash, place, info) {
                Ok(()) => {},
                Err(e) => {
                    return Err(e);
                },
            }
            proof {
                lemma_changed_state(before, flash@, place.dev_id);
            }
            i = i + 1;
        }
        assert(self.images@.take(self.images@.len() as int) =~= self.images@);
        Ok(())
    }

    /// Mark each of the images for permanent upgrade.
    pub fn mark_permanent_upgrades(&self, flash: &mut SimMultiFlash, slot: usize, info: &BootInfo)
        -> (done: Result<(), Abort>)
        requires
            all_wf(old(flash)@),
            info.wf(),
            slot < 2,
        ensures
            all_wf(final(flash)@),
            final(flash)@.dom() == old(flash)@.dom(),
            done is Ok ==> states(final(flash)@) == permanents_marked(
                self.images@,
                slot,
                *info,
                states(old(flash)@),
            ),
            permanents_markable(self.images@, slot, *info, states(old(flash)@)) ==> done is Ok,
    {
        let mut i: usize = 0;
        while i < self.images.len()
            invariant
                i <= self.images.len(),
                all_wf(flash@),
                info.wf(),
                slot < 2,
                flash@.dom() == old(flash)@.dom(),
                states(flash@) == permanents_marked(
                    self.images@.take(i as int),
                    slot,
                    *info,
                    states(old(flash)@),
                ),
            decreases self.images.len() - i,
        {
            let ghost before = flash@;
            let place = &self.images[i].slots[slot];
            proof {
                assert(self.images@.take(i + 1).drop_last() =~= self.images@.take(i as int));
                if !Caps::OverwriteUpgrade.in_set(info.caps) && permanents_markable(
                    self.images@,
                    slot,
                    *info,
                    states(old(flash)@),
                ) {
                    lemma_permanents_markable_prefix(
                        self.images@,
                        i + 1,
                        slot,
                        *info,
                        states(old(flash)@),
                    );
                    assert(permanent_markable(*place, *info, states(before)));
                }
            }
            match mark_permanent_upgrade(flash, place, info) {
                Ok(()) => {},
                Err(e) => {
                    return Err(e);
                },
            }
            proof {
                if Caps::OverwriteUpgrade.in_set(info.caps) {
                    lemma_overwrite_marks_nothing(self.images@.take(i as int), slot, *info, states(
                        old(flash)@,
                    ));
                } else {
                    lemma_changed_state(before, flash@, place.dev_id);
                }
            }
            i = i + 1;
        }
        assert(self.images@.take(self.images@.len() as int) =~= self.images@);
        Ok(())
    }

    /// Adds a new flash area that fails statistically: the status area of
    /// the slot `slot` of each image.
    pub fn mark_bad_status_with_rate(
        &self,
        flash: &mut SimMultiFlash,
        slot: usize,
        rate: u32,
        info: &BootInfo,
    ) -> (done: Result<(), Abort>)
        requires
            all_wf(old(flash)@),
            info.wf(),
            slot < 2,
        ensures
            all_wf(final(flash)@),
            final(flash)@.dom() == old(flash)@.dom(),
            done is Ok ==> states(final(flash)@) == status_marked_bad(
                self.images@,
                slot,
                rate,
                *info,
                states(old(flash)@),
            ),
            Caps::OverwriteUpgrade.in_set(info.caps) || status_reachable(
                self.images@,
                slot,
                *info,
                states(old(flash)@),
            ) ==> done is Ok,
    {
        if Caps::OverwriteUpgrade.present(info.caps) {
            return Ok(());
        }
        let mut i: usize = 0;
        while i < self.images.len()
            invariant
                i <= self.images.len(),
                all_wf(flash@),
                info.wf(),
                slot < 2,
                !Caps::OverwriteUpgrade.in_set(info.caps),
                flash@.dom() == old(flash)@.dom(),
                states(flash@) == status_marked_bad(
                    self.images@.take(i as int),
                    slot,
                    rate,
                    *info,
                    states(old(flash)@),
                ),
            decreases self.images.len() - i,
        {
            let ghost before = flash@;
            let place = &self.images[i].slots[slot];
            let mut dev = match flash.remove(&place.dev_id) {
                Some(dev) => dev,
                None => {
                    assert(flash@ =~= before);
                    return Err(Abort::NoDevice);
                },
            };
            assert(before[place.dev_id].wf());
            if place.len > usize::MAX - place.base_off || place.base_off + place.len
                < info.trailer_sz {
                flash.insert(place.dev_id, dev);
                assert(flash@ =~= before);
                return Err(Abort::OutOfBounds);
            }
            let status_off = place.base_off + place.len - info.trailer_sz;
            // Mark the status area as a bad area
            let _ = dev.add_bad_region(status_off, info.status_sz, rate);
            flash.insert(place.dev_id, dev);
            proof {
                assert(flash@.dom() =~= before.dom());
                assert(only_changed(before, flash@, place.dev_id));
                lemma_changed_state(before, flash@, place.dev_id);
                assert(self.images@.take(i + 1).drop_last() =~= self.images@.take(i as int));
                if !crate::flash::rate_in_range(rate) {
                    assert(states(flash@) =~= states(before));
                }
            }
            i = i + 1;
        }
        assert(self.images@.take(self.images@.len() as int) =~= self.images@);
        Ok(())
    }

    /// Removes the bad regions of the devices of the slot `slot` of each
    /// image, and turns their write verification off: without it, the only
    /// assert that a boot can trigger is the check of the status bytes.
    pub fn reset_bad_status(&self, flash: &mut SimMultiFlash, slot: usize, info: &BootInfo) -> (done:
        Result<(), Abort>)
        requires
            all_wf(old(flash)@),
            slot < 2,
        ensures
            all_wf(final(flash)@),
            final(flash)@.dom() == old(flash)@.dom(),
            done is Ok ==> states(final(flash)@) == status_reset(
                self.images@,
                slot,
                *info,
                states(old(flash)@),
            ),
            !Caps::ValidatePrimarySlot.in_set(info.caps) || devices_present(
                self.images@,
                slot,
                states(old(flash)@),
            ) ==> done is Ok,
    {
        if !Caps::ValidatePrimarySlot.present(info.caps) {
            return Ok(());
        }
        let mut i: usize = 0;
        while i < self.images.len()
            invariant
                i <= self.images.len(),
                all_wf(flash@),
                slot < 2,
                Caps::ValidatePrimarySlot.in_set(info.caps),
                flash@.dom() == old(flash)@.dom(),
                states(flash@) == status_reset(
                    self.images@.take(i as int),
                    slot,
                    *info,
                    states(old(flash)@),
                ),
            decreases self.images.len() - i,
        {
            let ghost before = flash@;
            let place = &self.images[i].slots[slot];
            let mut dev = match flash.remove(&place.dev_id) {
                Some(dev) => dev,
                None => {
                    assert(flash@ =~= before);
                    return Err(Abort::NoDevice);
                },
            };
            assert(before[place.dev_id].wf());
            dev.reset_bad_regions();
            // Disabling write verification the only assert triggered by
            // boot_go should be checking for integrity of status bytes.
            dev.set_verify_writes(false);
            flash.insert(place.dev_id, dev);
            proof {
                assert(flash@.dom() =~= before.dom());
                assert(only_changed(before, flash@, place.dev_id));
                lemma_changed_state(before, flash@, place.dev_id);
                assert(self.images@.take(i + 1).drop_last() =~= self.images@.take(i as int));
            }
            i = i + 1;
        }
        assert(self.images@.take(self.images@.len() as int) =~= self.images@);
        Ok(())
    }
}

/// For a bootloader that overwrites, the marks of a permanent upgrade
/// change nothing.
pub proof fn lemma_overwrite_marks_nothing(
    images: Seq<OneImage>,
    slot: usize,
    info: BootInfo,
    devices: Map<u8, FlashState>,
)
    requires
        Caps::OverwriteUpgrade.in_set(info.caps),
    ensures
        permanents_marked(images, slot, info, devices) == devices,
{
}

} // verus!
