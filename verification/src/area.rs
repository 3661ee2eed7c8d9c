//! Describe flash areas.
//!
//! A bootloader is told where its slots are through a table of flash areas.
//! The table is built here, slot by slot, against the sector layout of the
//! devices that hold the slots.

use crate::flash::{sector_at, Sector, SimFlash};
use std::collections::HashMap;
use vstd::prelude::*;

verus! {

broadcast use vstd::std_specs::hash::group_hash_axioms;

/// The most slots that the flattened table can hold.
pub const MAX_SLOTS: usize = 16;

/// Flash area map: the roles a partition can have.
#[derive(Copy, Clone, Debug, Eq, PartialEq, Structural)]
pub enum FlashId {
    BootLoader,
    Image0,
    Image1,
    ImageScratch,
    Image2,
    Image3,
}

impl FlashId {
    /// The number by which the bootloader knows this partition.
    pub open spec fn index(self) -> nat {
        match self {
            FlashId::BootLoader => 0,
            FlashId::Image0 => 1,
            FlashId::Image1 => 2,
            FlashId::ImageScratch => 3,
            FlashId::Image2 => 4,
            FlashId::Image3 => 5,
        }
    }

    /// The number by which the bootloader knows this partition.
    pub fn number(self) -> (n: u8)
        ensures
            n == self.index(),
    {
        match self {
            FlashId::BootLoader => 0,
            FlashId::Image0 => 1,
            FlashId::Image1 => 2,
            FlashId::ImageScratch => 3,
            FlashId::Image2 => 4,
            FlashId::Image3 => 5,
        }
    }
}

impl Default for FlashId {
    fn default() -> (id: FlashId)
        ensures
            id == FlashId::BootLoader,
    {
        FlashId::BootLoader
    }
}

/// One contiguous piece of a device that belongs to a partition.
#[derive(Copy, Clone, Debug, Eq, PartialEq, Structural)]
pub struct FlashArea {
    pub flash_id: FlashId,
    pub device_id: u8,
    pub off: u32,
    pub size: u32,
}

impl FlashArea {
    /// The area that fills the unused places of a table: the bootloader's
    /// own partition, empty, at the start of device 0.
    pub open spec fn blank() -> FlashArea {
        FlashArea { flash_id: FlashId::BootLoader, device_id: 0, off: 0, size: 0 }
    }
}

impl Default for FlashArea {
    fn default() -> (area: FlashArea)
        ensures
            area == FlashArea::blank(),
    {
        FlashArea { flash_id: FlashId::BootLoader, device_id: 0, off: 0, size: 0 }
    }
}

/// The sector descriptors of a device with sector sizes `sizes`.
pub open spec fn device_sectors(sizes: Seq<usize>) -> Seq<Sector> {
    Seq::new(sizes.len(), |k: int| sector_at(sizes, k))
}

/// The sectors of `sectors`, from index `from` on, that make up exactly the
/// `len` bytes at `base`; `None` where they do not: where the image begins
/// inside a sector, ends inside one, or runs past the last.
///
/// Sectors that end at or before `base` are passed over.
pub open spec fn covering(sectors: Seq<Sector>, from: int, base: int, len: int) -> Option<
    Seq<Sector>,
>
    decreases sectors.len() - from,
{
    if len == 0 {
        Some(Seq::empty())
    } else if from < 0 || from >= sectors.len() {
        None
    } else if base >= sectors[from].base + sectors[from].size {
        covering(sectors, from + 1, base, len)
    } else if sectors[from].base != base || sectors[from].size > len {
        None
    } else {
        match covering(sectors, from + 1, base + sectors[from].size, len - sectors[from].size) {
            Some(rest) => Some(seq![sectors[from]] + rest),
            None => None,
        }
    }
}

/// The area of partition `id` on device `dev_id` that is sector `sector`.
pub open spec fn sector_area(sector: Sector, id: FlashId, dev_id: u8) -> FlashArea {
    FlashArea { flash_id: id, device_id: dev_id, off: sector.base as u32, size: sector.size as u32 }
}

/// The areas of partition `id` on device `dev_id` that are the sectors
/// `sectors`.
pub open spec fn sector_areas(sectors: Seq<Sector>, id: FlashId, dev_id: u8) -> Seq<FlashArea> {
    Seq::new(sectors.len(), |k: int| sector_area(sectors[k], id, dev_id))
}

/// What a table of flash areas holds.
pub struct AreaMap {
    /// For each slot, the areas it is made of.
    pub areas: Seq<Seq<FlashArea>>,
    /// For each slot, the one area that spans it.
    pub whole: Seq<FlashArea>,
    /// For each known device, its sectors.
    pub sectors: Map<u8, Seq<Sector>>,
}

impl AreaMap {
    /// Every slot has its constituent areas and its spanning area.
    pub open spec fn wf(self) -> bool {
        self.areas.len() == self.whole.len()
    }

    /// The table after empty slots have been added up to slot `slot`.
    pub open spec fn padded_to(self, slot: nat) -> AreaMap {
        if slot > self.areas.len() {
            AreaMap {
                areas: self.areas + Seq::new(
                    (slot - self.areas.len()) as nat,
                    |k: int| Seq::<FlashArea>::empty(),
                ),
                whole: self.whole + Seq::new(
                    (slot - self.whole.len()) as nat,
                    |k: int| FlashArea::blank(),
                ),
                ..self
            }
        } else {
            self
        }
    }

    /// The table with one more slot, made of `areas` and spanned by `whole`.
    pub open spec fn with_slot(self, areas: Seq<FlashArea>, whole: FlashArea) -> AreaMap {
        AreaMap { areas: self.areas.push(areas), whole: self.whole.push(whole), ..self }
    }

    /// Partition `id` can be added as the `len` bytes at `base` of device
    /// `dev_id`: the device is known, no slot with this or a higher number has
    /// been added, the image is made of whole sectors, and its place fits the
    /// 32-bit fields of an area.
    pub open spec fn can_add_image(self, base: int, len: int, id: FlashId, dev_id: u8) -> bool {
        &&& self.sectors.contains_key(dev_id)
        &&& id.index() >= self.areas.len()
        &&& covering(self.sectors[dev_id], 0, base, len) is Some
        &&& base <= u32::MAX
        &&& len <= u32::MAX
    }

    /// The table after partition `id` has been added as the `len` bytes at
    /// `base` of device `dev_id`: empty slots up to its number, then the slot,
    /// with one area for each sector it covers.
    pub open spec fn with_image(self, base: int, len: int, id: FlashId, dev_id: u8) -> AreaMap {
        self.padded_to(id.index()).with_slot(
            sector_areas(covering(self.sectors[dev_id], 0, base, len).unwrap(), id, dev_id),
            FlashArea { flash_id: id, device_id: dev_id, off: base as u32, size: len as u32 },
        )
    }

    /// The table after partition `id` has been added as one area.
    pub open spec fn with_simple_image(self, base: int, len: int, id: FlashId, dev_id: u8)
        -> AreaMap {
        let area = FlashArea { flash_id: id, device_id: dev_id, off: base as u32, size: len as u32 };
        self.with_slot(seq![area], area)
    }

    /// Place `i` of the table was only passed over: it was filled in blank
    /// when a slot further on was added, and no partition has been added
    /// there.
    pub open spec fn passed_over(self, i: int) -> bool {
        0 <= i < self.areas.len() && i < self.whole.len() && self.areas[i].len() == 0
            && self.whole[i] == FlashArea::blank()
    }

    /// Slot `i` is one that was added and bears the id `id`.
    pub open spec fn bears(self, i: int, id: FlashId) -> bool {
        0 <= i < self.whole.len() && !self.passed_over(i) && self.whole[i].flash_id == id
    }

    /// The slot that `find` reports for `id`: the first that was added with
    /// that id. The places that were only passed over are no slots.
    pub open spec fn first_slot(self, id: FlashId) -> Option<int> {
        if exists|i: int| #[trigger] self.bears(i, id) {
            Some(
                choose|i: int| #[trigger]
                    self.bears(i, id) && forall|j: int| 0 <= j < i ==> !#[trigger] self.bears(j, id),
            )
        } else {
            None
        }
    }
}

/// Structure to build up the boot area table.
pub struct AreaDesc {
    areas: Vec<Vec<FlashArea>>,
    whole: Vec<FlashArea>,
    sectors: HashMap<u8, Vec<Sector>>,
}

impl View for AreaDesc {
    type V = AreaMap;

    closed spec fn view(&self) -> AreaMap {
        AreaMap {
            areas: Seq::new(self.areas@.len(), |i: int| self.areas@[i]@),
            whole: self.whole@,
            sectors: self.sectors@.map_values(|v: Vec<Sector>| v@),
        }
    }
}

/// One slot of the flattened table.
pub struct CArea {
    /// The area that spans the slot.
    pub whole: FlashArea,
    /// The areas the slot is made of.
    pub areas: Vec<FlashArea>,
    /// How many areas the slot is made of.
    pub num_areas: u32,
    /// The partition the slot holds.
    pub id: FlashId,
}

impl Default for CArea {
    /// A slot that holds nothing: blank, without areas, with the
    /// bootloader's id.
    fn default() -> (slot: CArea)
        ensures
            slot.whole == FlashArea::blank(),
            slot.areas@ == Seq::<FlashArea>::empty(),
            slot.num_areas == 0,
            slot.id == FlashId::BootLoader,
    {
        CArea {
            whole: FlashArea::default(),
            areas: Vec::new(),
            num_areas: 0,
            id: FlashId::BootLoader,
        }
    }
}

/// The area descriptor, flattened: a fixed number of slots, of which the
/// first `num_slots` are in use.
pub struct CAreaDesc {
    pub slots: Vec<CArea>,
    pub num_slots: u32,
}

impl AreaMap {
    /// What slot `i` of the flattened table holds, as (spanning area, areas,
    /// id): the slot of the table where it has one with any area, and a blank
    /// otherwise.
    pub open spec fn flat_slot(self, i: int) -> (FlashArea, Seq<FlashArea>, FlashId) {
        if 0 <= i < self.areas.len() && self.areas[i].len() > 0 {
            (self.whole[i], self.areas[i], self.areas[i][0].flash_id)
        } else {
            (FlashArea::blank(), Seq::empty(), FlashId::BootLoader)
        }
    }
}

impl AreaDesc {
    /// The table is well formed.
    pub open spec fn wf(&self) -> bool {
        self@.wf()
    }

    /// An empty table that knows no device.
    pub fn new() -> (desc: AreaDesc)
        ensures
            desc.wf(),
            desc@.areas == Seq::<Seq<FlashArea>>::empty(),
            desc@.whole == Seq::<FlashArea>::empty(),
            desc@.sectors == Map::<u8, Seq<Sector>>::empty(),
    {
        let desc = AreaDesc { areas: Vec::new(), whole: Vec::new(), sectors: HashMap::new() };
        assert(desc@.sectors =~= Map::<u8, Seq<Sector>>::empty());
        assert(desc@.areas =~= Seq::<Seq<FlashArea>>::empty());
        assert(desc@.whole =~= Seq::<FlashArea>::empty());
        desc
    }

    /// Records the sector layout of `flash` as that of device `id`.
    pub fn add_flash_sectors(&mut self, id: u8, flash: &SimFlash)
        requires
            flash.wf(),
        ensures
            final(self)@ == (AreaMap {
                sectors: old(self)@.sectors.insert(id, device_sectors(flash@.sectors)),
                ..old(self)@
            }),
    {
        let mut list: Vec<Sector> = Vec::new();
        let mut iter = flash.sector_iter();
        loop
            invariant
                iter.wf(),
                iter.sizes() == flash@.sectors,
                iter.position() == list@.len(),
                list@.len() <= flash@.sectors.len(),
                forall|k: int| 0 <= k < list@.len() ==> list@[k] == sector_at(flash@.sectors, k),
            ensures
                list@ == device_sectors(flash@.sectors),
            decreases flash@.sectors.len() - list@.len(),
        {
            match iter.next() {
                Some(sector) => {
                    list.push(sector);
                },
                None => {
                    assert(list@ =~= device_sectors(flash@.sectors));
                    break ;
                },
            }
        }
        self.sectors.insert(id, list);
        assert(self@.sectors =~= old(self)@.sectors.insert(id, device_sectors(flash@.sectors)));
        assert(self@.areas =~= old(self)@.areas);
    }

    /// The sectors of device `dev_id` that make up exactly the `len` bytes at
    /// `base`, if the device is known and there are such sectors.
    pub fn covering_sectors(&self, base: usize, len: usize, dev_id: u8) -> (found: Option<
        Vec<Sector>,
    >)
        ensures
            found is Some <==> self@.sectors.contains_key(dev_id) && covering(
                self@.sectors[dev_id],
                0,
                base as int,
                len as int,
            ) is Some,
            found is Some ==> found.unwrap()@ == covering(
                self@.sectors[dev_id],
                0,
                base as int,
                len as int,
            ).unwrap(),
    {
        let sectors = match self.sectors.get(&dev_id) {
            Some(sectors) => sectors,
            None => {
                assert(!self@.sectors.contains_key(dev_id));
                return None;
            },
        };
        assert(self@.sectors.contains_key(dev_id) && self@.sectors[dev_id] == sectors@);
        let mut area: Vec<Sector> = Vec::new();
        let mut at = base;
        let mut left = len;
        let mut i: usize = 0;
        while i < sectors.len() && left != 0
            invariant
                i <= sectors.len(),
                self@.sectors.contains_key(dev_id),
                sectors@ == self@.sectors[dev_id],
                match covering(sectors@, i as int, at as int, left as int) {
                    Some(rest) => covering(sectors@, 0, base as int, len as int) == Some(
                        area@ + rest,
                    ),
                    None => covering(sectors@, 0, base as int, len as int) is None,
                },
            decreases sectors.len() - i,
        {
            let sector = sectors[i];
            if sector.size <= at && sector.base <= at - sector.size {
                // This sector ends at or before the image.
            } else if sector.base != at || sector.size > left {
                return None;
            } else if sector.size > usize::MAX - at {
                if left == sector.size {
                    assert(area@ + (seq![sector] + Seq::<Sector>::empty()) =~= area@.push(sector));
                    area.push(sector);
                    return Some(area);
                }
                proof {
                    lemma_covering_beyond(
                        sectors@,
                        i as int + 1,
                        at + sector.size,
                        left - sector.size,
                    );
                }
                return None;
            } else {
                proof {
                    let rest = covering(
                        sectors@,
                        i as int + 1,
                        at + sector.size,
                        left - sector.size,
                    );
                    if rest is Some {
                        assert(area@ + (seq![sector] + rest.unwrap()) =~= area@.push(sector)
                            + rest.unwrap());
                    }
                }
                area.push(sector);
                at = at + sector.size;
                left = left - sector.size;
            }
            i = i + 1;
        }
        if left != 0 {
            return None;
        }
        assert(area@ + Seq::<Sector>::empty() =~= area@);
        Some(area)
    }

    /// Whether partition `id` can be added as the `len` bytes at `base` of
    /// device `dev_id`.
    pub fn can_add_image(&self, base: usize, len: usize, id: FlashId, dev_id: u8) -> (ok: bool)
        requires
            self.wf(),
        ensures
            ok == self@.can_add_image(base as int, len as int, id, dev_id),
    {
        if (id.number() as usize) < self.areas.len() {
            return false;
        }
        if base > 0xffff_ffff || len > 0xffff_ffff {
            return false;
        }
        self.covering_sectors(base, len, dev_id).is_some()
    }

    /// Adds a slot to the table. The slot must align with erasable units in
    /// the flash device, and slots must be added in the order of their
    /// numbers: the bootloader expects the primary slot, the secondary slot
    /// and the scratch area in that order. Slots that are passed over are left
    /// empty.
    pub fn add_image(&mut self, base: usize, len: usize, id: FlashId, dev_id: u8)
        requires
            old(self).wf(),
            old(self)@.can_add_image(base as int, len as int, id, dev_id),
        ensures
            final(self).wf(),
            final(self)@ == old(self)@.with_image(base as int, len as int, id, dev_id),
    {
        let nid = id.number() as usize;
        while nid > self.areas.len()
            invariant
                self.wf(),
                nid == id.index(),
                old(self).areas@.len() <= self.areas@.len() <= nid,
                self.sectors == old(self).sectors,
                self@ == old(self)@.padded_to(self.areas@.len() as nat),
            decreases nid - self.areas.len(),
        {
            let ghost before = self@;
            self.areas.push(Vec::new());
            self.whole.push(FlashArea::default());
            proof {
                let now = old(self)@.padded_to(self.areas@.len() as nat);
                assert(self@.areas.len() == now.areas.len());
                assert forall|k: int| 0 <= k < now.areas.len() implies #[trigger] self@.areas[k]
                    == now.areas[k] by {
                    if k < before.areas.len() {
                        assert(self@.areas[k] == before.areas[k]);
                    } else {
                        assert(self@.areas[k] =~= Seq::<FlashArea>::empty());
                    }
                }
                assert(self@.areas =~= now.areas);
                assert(self@.whole =~= now.whole);
                assert(self@.sectors =~= now.sectors);
            }
        }
        let sectors = self.covering_sectors(base, len, dev_id).unwrap();
        let mut area: Vec<FlashArea> = Vec::new();
        let mut i: usize = 0;
        while i < sectors.len()
            invariant
                i <= sectors.len(),
                area@.len() == i,
                self@ == old(self)@.padded_to(id.index()),
                forall|k: int| 0 <= k < i ==> area@[k] == sector_area(sectors@[k], id, dev_id),
            decreases sectors.len() - i,
        {
            let sector = sectors[i];
            area.push(
                FlashArea {
                    flash_id: id,
                    device_id: dev_id,
                    off: #[verifier::truncate]
                    (sector.base as u32),
                    size: #[verifier::truncate]
                    (sector.size as u32),
                },
            );
            i = i + 1;
        }
        assert(area@ =~= sector_areas(sectors@, id, dev_id));
        let ghost padded = self@;
        self.areas.push(area);
        self.whole.push(
            FlashArea { flash_id: id, device_id: dev_id, off: base as u32, size: len as u32 },
        );
        proof {
            let now = old(self)@.with_image(base as int, len as int, id, dev_id);
            assert(self@.areas.len() == now.areas.len());
            assert forall|k: int| 0 <= k < now.areas.len() implies #[trigger] self@.areas[k]
                == now.areas[k] by {
                if k < padded.areas.len() {
                    assert(self@.areas[k] == padded.areas[k]);
                }
            }
            assert(self@.areas =~= now.areas);
            assert(self@.whole =~= now.whole);
            assert(self@.sectors =~= now.sectors);
        }
    }

    /// Adds a simple slot to the table. This ignores the device layout, and
    /// just adds the area as a single unit. It serves configurations where the
    /// partition table uses larger sectors than the underlying flash device.
    pub fn add_simple_image(&mut self, base: usize, len: usize, id: FlashId, dev_id: u8)
        requires
            old(self).wf(),
            base <= u32::MAX,
            len <= u32::MAX,
        ensures
            final(self).wf(),
            final(self)@ == old(self)@.with_simple_image(base as int, len as int, id, dev_id),
    {
        let area = FlashArea {
            flash_id: id,
            device_id: dev_id,
            off: base as u32,
            size: len as u32,
        };
        let mut areas: Vec<FlashArea> = Vec::new();
        areas.push(area);
        self.areas.push(areas);
        self.whole.push(area);
        proof {
            let now = old(self)@.with_simple_image(base as int, len as int, id, dev_id);
            assert(self@.areas.len() == now.areas.len());
            assert forall|k: int| 0 <= k < now.areas.len() implies #[trigger] self@.areas[k]
                == now.areas[k] by {
                if k < old(self)@.areas.len() {
                    assert(self@.areas[k] == old(self)@.areas[k]);
                } else {
                    assert(self@.areas[k] =~= seq![area]);
                }
            }
            assert(self@.areas =~= now.areas);
            assert(self@.whole =~= now.whole);
            assert(self@.sectors =~= now.sectors);
        }
    }

    /// Looks for the slot with the given id, and returns its offset, size and
    /// device id: those of the first slot that was added with the id.
    /// Returns `None` if no slot was: a place that was only passed over when
    /// a slot further on was added is no slot.
    pub fn find(&self, id: FlashId) -> (found: Option<(usize, usize, u8)>)
        ensures
            match self@.first_slot(id) {
                Some(i) => found == Some(
                    (
                        self@.whole[i].off as usize,
                        self@.whole[i].size as usize,
                        self@.whole[i].device_id,
                    ),
                ) && self@.bears(i, id) && forall|j: int| 0 <= j < i ==> !#[trigger] self@.bears(j, id),
                None => found is None && forall|j: int| !#[trigger] self@.bears(j, id),
            },
    {
        let mut i: usize = 0;
        while i < self.whole.len()
            invariant
                i <= self.whole.len(),
                forall|j: int| 0 <= j < i ==> !#[trigger] self@.bears(j, id),
            decreases self.whole.len() - i,
        {
            let area = self.whole[i];
            let passed_over = i < self.areas.len() && self.areas[i].len() == 0 && area.device_id
                == 0 && area.off == 0 && area.size == 0 && area.flash_id == FlashId::BootLoader;
            assert(passed_over == self@.passed_over(i as int));
            if !passed_over && area.flash_id == id {
                proof {
                    assert(self@.bears(i as int, id));
                    let w = self@.first_slot(id).unwrap();
                    if w < i {
                        assert(!self@.bears(w, id));
                    }
                    if i < w {
                        assert(!self@.bears(i as int, id));
                    }
                }
                return Some((area.off as usize, area.size as usize, area.device_id));
            }
            i = i + 1;
        }
        None
    }

    /// The table flattened for the bootloader: `MAX_SLOTS` slots, those of
    /// the table first, each slot without areas left blank.
    pub fn get_c(&self) -> (flat: CAreaDesc)
        requires
            self.wf(),
            self@.areas.len() <= MAX_SLOTS,
            forall|i: int| 0 <= i < self@.areas.len() ==> (#[trigger] self@.areas[i]).len()
                <= u32::MAX,
        ensures
            flat.num_slots == self@.areas.len(),
            flat.slots@.len() == MAX_SLOTS,
            forall|i: int|
                0 <= i < MAX_SLOTS ==> {
                    let slot = #[trigger] flat.slots@[i];
                    &&& (slot.whole, slot.areas@, slot.id) == self@.flat_slot(i)
                    &&& slot.num_areas == slot.areas@.len()
                },
    {
        let mut slots: Vec<CArea> = Vec::new();
        let mut i: usize = 0;
        while i < MAX_SLOTS
            invariant
                i <= MAX_SLOTS,
                slots@.len() == i,
                self.wf(),
                self@.areas.len() <= MAX_SLOTS,
                forall|k: int| 0 <= k < self@.areas.len() ==> (#[trigger] self@.areas[k]).len()
                    <= u32::MAX,
                forall|k: int|
                    0 <= k < i ==> {
                        let slot = #[trigger] slots@[k];
                        &&& (slot.whole, slot.areas@, slot.id) == self@.flat_slot(k)
                        &&& slot.num_areas == slot.areas@.len()
                    },
            decreases MAX_SLOTS - i,
        {
            if i < self.areas.len() && self.areas[i].len() > 0 {
                let area = &self.areas[i];
                assert(self@.areas[i as int] == area@);
                let copy = area.clone();
                assert(copy@ =~= area@);
                slots.push(
                    CArea {
                        whole: self.whole[i],
                        areas: copy,
                        num_areas: area.len() as u32,
                        id: area[0].flash_id,
                    },
                );
            } else {
                slots.push(CArea::default());
            }
            i = i + 1;
        }
        CAreaDesc { slots, num_slots: self.areas.len() as u32 }
    }

    /// The spanning area of every slot, in slot order.
    pub fn iter_areas(&self) -> (areas: &Vec<FlashArea>)
        ensures
            areas@ == self@.whole,
    {
        &self.whole
    }
}

/// The sectors `list` lie end to end from `base` and hold `len` bytes in
/// all.
pub open spec fn tiles(list: Seq<Sector>, base: int, len: int) -> bool
    decreases list.len(),
{
    if list.len() == 0 {
        len == 0
    } else {
        list[0].base == base && list[0].size <= len && tiles(
            list.skip(1),
            base + list[0].size,
            len - list[0].size,
        )
    }
}

/// The areas of a slot are whole sectors of its device, each beginning
/// where the one before it ends, the first at the base of the slot; and
/// together they span exactly the length of the slot.
pub proof fn law_covering_tiles(sectors: Seq<Sector>, from: int, base: int, len: int)
    requires
        0 <= from,
        covering(sectors, from, base, len) is Some,
    ensures
        tiles(covering(sectors, from, base, len).unwrap(), base, len),
        forall|i: int|
            0 <= i < covering(sectors, from, base, len).unwrap().len() ==> exists|j: int|
                from <= j < sectors.len() && sectors[j] == #[trigger] covering(
                    sectors,
                    from,
                    base,
                    len,
                ).unwrap()[i],
    decreases sectors.len() - from,
{
    let list = covering(sectors, from, base, len).unwrap();
    if len != 0 && from < sectors.len() {
        if base >= sectors[from].base + sectors[from].size {
            law_covering_tiles(sectors, from + 1, base, len);
            let rest = covering(sectors, from + 1, base, len).unwrap();
            assert forall|i: int| 0 <= i < list.len() implies exists|j: int|
                from <= j < sectors.len() && sectors[j] == #[trigger] list[i] by {
                let j = choose|j: int| from + 1 <= j < sectors.len() && sectors[j] == rest[i];
                assert(sectors[j] == list[i]);
            }
        } else {
            let size = sectors[from].size;
            law_covering_tiles(sectors, from + 1, base + size, len - size);
            let rest = covering(sectors, from + 1, base + size, len - size).unwrap();
            assert(list.skip(1) =~= rest);
            assert forall|i: int| 0 <= i < list.len() implies exists|j: int|
                from <= j < sectors.len() && sectors[j] == #[trigger] list[i] by {
                if i == 0 {
                    assert(sectors[from] == list[0]);
                } else {
                    let j = choose|j: int|
                        from + 1 <= j < sectors.len() && sectors[j] == rest[i - 1];
                    assert(sectors[j] == list[i]);
                }
            }
        }
    }
}

/// An image of some bytes at a place that no sector can begin at fits no
/// sectors.
proof fn lemma_covering_beyond(sectors: Seq<Sector>, from: int, base: int, len: int)
    requires
        base > usize::MAX,
        len > 0,
    ensures
        covering(sectors, from, base, len) is None,
    decreases sectors.len() - from,
{
    if 0 <= from < sectors.len() {
        if base >= sectors[from].base + sectors[from].size {
            lemma_covering_beyond(sectors, from + 1, base, len);
        }
    }
}

} // verus!
