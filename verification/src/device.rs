//! The devices that the simulator knows, and the images built on them.

use crate::area::{
    covering, device_sectors, AreaDesc, AreaMap, FlashArea, FlashId,
};
use crate::caps::{BootInfo, Caps};
use crate::checks::{states, Images, OneImage};
use crate::depends::{BoringDep, DepTest, DepType, Depender, PairDep};
use crate::flash::{is_pow2, sector_at, sector_base, total_size, FlashState, Sector, SimFlash};
use crate::image::{
    all_wf, install_no_image, padded, Abort, ImageData, SimMultiFlash, SlotInfo, WrappedKey,
};
use crate::install::{
    areas_on, device_table, install_image, partition_table, table_collides,
};
use crate::multiflash::{device_params, write_at};
use crate::tlv::KeyRing;
use std::collections::HashMap;
use vstd::prelude::*;

verus! {

broadcast use vstd::std_specs::hash::group_hash_axioms;

/// The devices that the simulator knows.
#[derive(Copy, Clone, Debug, PartialEq, Eq, Structural)]
pub enum DeviceName {
    Stm32f4,
    K64f,
    K64fBig,
    K64fMulti,
    Nrf52840,
    Nrf52840SpiFlash,
    Nrf52840UnequalSlots,
}

impl DeviceName {
    /// The name of the device as text.
    pub fn name(&self) -> (name: &'static str)
        ensures
            name@ == match *self {
                DeviceName::Stm32f4 => "stm32f4"@,
                DeviceName::K64f => "k64f"@,
                DeviceName::K64fBig => "k64fbig"@,
                DeviceName::K64fMulti => "k64fmulti"@,
                DeviceName::Nrf52840 => "nrf52840"@,
                DeviceName::Nrf52840SpiFlash => "Nrf52840SpiFlash"@,
                DeviceName::Nrf52840UnequalSlots => "Nrf52840UnequalSlots"@,
            },
    {
        match self {
            DeviceName::Stm32f4 => "stm32f4",
            DeviceName::K64f => "k64f",
            DeviceName::K64fBig => "k64fbig",
            DeviceName::K64fMulti => "k64fmulti",
            DeviceName::Nrf52840 => "nrf52840",
            DeviceName::Nrf52840SpiFlash => "Nrf52840SpiFlash",
            DeviceName::Nrf52840UnequalSlots => "Nrf52840UnequalSlots",
        }
    }
}

/// Every device that the simulator knows.
pub open spec fn all_devices_spec() -> Seq<DeviceName> {
    seq![
        DeviceName::Stm32f4,
        DeviceName::K64f,
        DeviceName::K64fBig,
        DeviceName::K64fMulti,
        DeviceName::Nrf52840,
        DeviceName::Nrf52840SpiFlash,
        DeviceName::Nrf52840UnequalSlots,
    ]
}

/// The write alignments that the tests are run with.
pub open spec fn alignments_spec() -> Seq<usize> {
    seq![1usize, 2usize, 4usize, 8usize]
}

/// Every device that the simulator knows.
pub fn all_devices() -> (devices: Vec<DeviceName>)
    ensures
        devices@ == all_devices_spec(),
{
    let mut devices: Vec<DeviceName> = Vec::new();
    devices.push(DeviceName::Stm32f4);
    devices.push(DeviceName::K64f);
    devices.push(DeviceName::K64fBig);
    devices.push(DeviceName::K64fMulti);
    devices.push(DeviceName::Nrf52840);
    devices.push(DeviceName::Nrf52840SpiFlash);
    devices.push(DeviceName::Nrf52840UnequalSlots);
    assert(devices@ =~= seq![
        DeviceName::Stm32f4,
        DeviceName::K64f,
        DeviceName::K64fBig,
        DeviceName::K64fMulti,
        DeviceName::Nrf52840,
        DeviceName::Nrf52840SpiFlash,
        DeviceName::Nrf52840UnequalSlots,
    ]);
    devices
}

/// The write alignments that the tests are run with.
pub fn test_alignments() -> (aligns: Vec<usize>)
    ensures
        aligns@ == alignments_spec(),
{
    let mut aligns: Vec<usize> = Vec::new();
    aligns.push(1);
    aligns.push(2);
    aligns.push(4);
    aligns.push(8);
    assert(aligns@ =~= seq![1usize, 2usize, 4usize, 8usize]);
    aligns
}

/// `count` sectors of `size` bytes each.
pub open spec fn uniform(count: nat, size: usize) -> Seq<usize> {
    Seq::new(count, |i: int| size)
}

/// The sectors of an STM32F4: four small ones, one of middle size and three
/// large ones.
pub open spec fn stm32f4_sectors() -> Seq<usize> {
    seq![
        0x4000usize,
        0x4000usize,
        0x4000usize,
        0x4000usize,
        0x10000usize,
        0x20000usize,
        0x20000usize,
        0x20000usize,
    ]
}

/// The sector sizes of the devices of `device`, by device id.
pub open spec fn device_sizes(device: DeviceName) -> Map<u8, Seq<usize>> {
    match device {
        DeviceName::Stm32f4 => map![0u8 => stm32f4_sectors()],
        DeviceName::K64f => map![0u8 => uniform(128, 4096)],
        DeviceName::K64fBig => map![0u8 => uniform(128, 4096)],
        DeviceName::K64fMulti => map![0u8 => uniform(256, 4096)],
        DeviceName::Nrf52840 => map![0u8 => uniform(128, 4096)],
        DeviceName::Nrf52840SpiFlash => map![0u8 => uniform(128, 4096), 1u8 => uniform(64, 8192)],
        DeviceName::Nrf52840UnequalSlots => map![0u8 => uniform(128, 4096)],
    }
}

/// A table that knows the sectors of the devices with the sector sizes
/// `sizes` and has no slot.
pub open spec fn bare_table(sizes: Map<u8, Seq<usize>>) -> AreaMap {
    AreaMap {
        areas: Seq::empty(),
        whole: Seq::empty(),
        sectors: sizes.map_values(|s: Seq<usize>| device_sectors(s)),
    }
}

/// The area table of `device`.
pub open spec fn device_layout(device: DeviceName) -> AreaMap {
    let bare = bare_table(device_sizes(device));
    match device {
        // STM style flash.  Large sectors, with a large scratch area.
        DeviceName::Stm32f4 => bare.with_image(0x020000, 0x020000, FlashId::Image0, 0).with_image(
            0x040000,
            0x020000,
            FlashId::Image1,
            0,
        ).with_image(0x060000, 0x020000, FlashId::ImageScratch, 0),
        // NXP style flash.  Small sectors, one small sector for scratch.
        DeviceName::K64f => bare.with_image(0x020000, 0x020000, FlashId::Image0, 0).with_image(
            0x040000,
            0x020000,
            FlashId::Image1,
            0,
        ).with_image(0x060000, 0x001000, FlashId::ImageScratch, 0),
        // Simulating an STM style flash on top of an NXP style flash.  Underlying flash device
        // uses small sectors, but we tell the bootloader they are large.
        DeviceName::K64fBig => bare.with_simple_image(
            0x020000,
            0x020000,
            FlashId::Image0,
            0,
        ).with_simple_image(0x040000, 0x020000, FlashId::Image1, 0).with_simple_image(
            0x060000,
            0x020000,
            FlashId::ImageScratch,
            0,
        ),
        // NXP style flash, but larger, to support multiple images.
        DeviceName::K64fMulti => bare.with_image(0x020000, 0x020000, FlashId::Image0, 0).with_image(
            0x040000,
            0x020000,
            FlashId::Image1,
            0,
        ).with_image(0x060000, 0x001000, FlashId::ImageScratch, 0).with_image(
            0x080000,
            0x020000,
            FlashId::Image2,
            0,
        ).with_image(0x0a0000, 0x020000, FlashId::Image3, 0),
        // Simulating the flash on the nrf52840 with partitions set up so that the scratch size
        // does not divide into the image size.
        DeviceName::Nrf52840 => bare.with_image(0x008000, 0x034000, FlashId::Image0, 0).with_image(
            0x03c000,
            0x034000,
            FlashId::Image1,
            0,
        ).with_image(0x070000, 0x00d000, FlashId::ImageScratch, 0),
        // Simulate nrf52840 with external SPI flash. The external SPI flash
        // has a larger sector size so for now store scratch on that flash.
        DeviceName::Nrf52840SpiFlash => bare.with_image(
            0x008000,
            0x068000,
            FlashId::Image0,
            0,
        ).with_image(0x000000, 0x068000, FlashId::Image1, 1).with_image(
            0x068000,
            0x018000,
            FlashId::ImageScratch,
            1,
        ),
        DeviceName::Nrf52840UnequalSlots => bare.with_image(
            0x008000,
            0x03c000,
            FlashId::Image0,
            0,
        ).with_image(0x044000, 0x03b000, FlashId::Image1, 0),
    }
}

/// The capabilities of a bootloader that cannot be tested on `device`.
pub open spec fn unsupported_caps(device: DeviceName) -> Seq<Caps> {
    match device {
        DeviceName::Stm32f4 => seq![Caps::SwapUsingMove],
        DeviceName::K64fBig => seq![Caps::SwapUsingMove],
        DeviceName::Nrf52840SpiFlash => seq![Caps::SwapUsingMove],
        DeviceName::Nrf52840UnequalSlots => seq![Caps::SwapUsingScratch, Caps::OverwriteUpgrade],
        _ => Seq::empty(),
    }
}

/// A device with the sector sizes `sizes`, fresh.
pub open spec fn fresh_device(sizes: Seq<usize>, align: usize, erased_val: u8) -> FlashState {
    FlashState {
        data: Seq::new(total_size(sizes) as nat, |i: int| erased_val),
        write_safe: Seq::new(total_size(sizes) as nat, |i: int| true),
        sectors: sizes,
        bad_regions: Seq::empty(),
        align,
        verify_writes: true,
        erased_val,
    }
}

/// Sector `k` of a device of sectors of `size` bytes begins at `k * size`.
pub proof fn lemma_uniform_base(count: nat, size: usize, k: int)
    requires
        0 <= k <= count,
    ensures
        sector_base(uniform(count, size), k) == k * size,
    decreases k,
{
    if k > 0 {
        lemma_uniform_base(count, size, k - 1);
        assert((k - 1) * size + size == k * size) by (nonlinear_arith);
    }
}

/// On a device of `total` sectors of `size` bytes each, the `count` sectors
/// from sector `first` make up the bytes from `first * size`.
pub proof fn lemma_uniform_covering(total: nat, size: usize, from: int, first: int, count: int)
    requires
        size > 0,
        0 <= from <= first,
        0 <= count,
        first + count <= total,
        total * size <= usize::MAX,
    ensures
        covering(device_sectors(uniform(total, size)), from, first * size, count * size) is Some,
    decreases total - from,
{
    let sectors = device_sectors(uniform(total, size));
    if count == 0 {
        assert(count * size == 0) by (nonlinear_arith)
            requires
                count == 0,
        ;
    } else {
        lemma_uniform_base(total, size, from);
        assert(count * size > 0) by (nonlinear_arith)
            requires
                count > 0,
                size > 0,
        ;
        assert(from * size <= total * size) by (nonlinear_arith)
            requires
                from <= total,
                size >= 0,
        ;
        assert(sectors[from].base == from * size);
        assert(sectors[from].size == size);
        if from < first {
            assert(first * size >= from * size + size) by (nonlinear_arith)
                requires
                    from < first,
                    size >= 0,
            ;
            lemma_uniform_covering(total, size, from + 1, first, count);
        } else {
            assert(size <= count * size) by (nonlinear_arith)
                requires
                    count >= 1,
                    size >= 0,
            ;
            assert(first * size + size == (first + 1) * size) by (nonlinear_arith);
            assert(count * size - size == (count - 1) * size) by (nonlinear_arith);
            lemma_uniform_covering(total, size, from + 1, first + 1, count - 1);
        }
    }
}

/// A fresh device of `count` sectors of `size` bytes each.
fn uniform_flash(count: usize, size: usize, align: usize, erased_val: u8) -> (flash: SimFlash)
    requires
        is_pow2(align),
        count * size <= usize::MAX,
    ensures
        flash.wf(),
        flash@ == fresh_device(uniform(count as nat, size), align, erased_val),
{
    let sizes = vec![size; count];
    assert(sizes@ =~= uniform(count as nat, size));
    proof {
        lemma_uniform_base(count as nat, size, count as int);
    }
    let flash = SimFlash::new(sizes, align, erased_val);
    assert(flash@.bad_regions =~= Seq::<crate::flash::BadRegion>::empty());
    assert(flash@ =~= fresh_device(uniform(count as nat, size), align, erased_val));
    flash
}

/// Adds to `areadesc`, as partition `id`, the `count` sectors from sector
/// `first` of device `dev_id`, which has `total` sectors of `size` bytes.
fn add_sectors(
    areadesc: &mut AreaDesc,
    total: usize,
    size: usize,
    first: usize,
    count: usize,
    id: FlashId,
    dev_id: u8,
)
    requires
        old(areadesc).wf(),
        old(areadesc)@.sectors.contains_key(dev_id),
        old(areadesc)@.sectors[dev_id] == device_sectors(uniform(total as nat, size)),
        size > 0,
        first + count <= total,
        total * size <= u32::MAX,
        id.index() >= old(areadesc)@.areas.len(),
    ensures
        final(areadesc).wf(),
        final(areadesc)@ == old(areadesc)@.with_image(first * size, count * size, id, dev_id),
{
    proof {
        lemma_uniform_covering(total as nat, size, 0, first as int, count as int);
        assert(first * size <= total * size && count * size <= total * size) by (nonlinear_arith)
            requires
                first + count <= total,
                size >= 0,
                first >= 0,
                count >= 0,
        ;
    }
    areadesc.add_image(first * size, count * size, id, dev_id);
}

/// The devices and the area table of a configuration.
pub struct Layout {
    pub flash: SimMultiFlash,
    pub areadesc: AreaDesc,
    /// The capabilities of a bootloader that cannot be tested on the
    /// configuration.
    pub unsupported: Vec<Caps>,
}

impl Layout {
    /// This is the configuration of `device` with devices that are fresh,
    /// have the write alignment `align` and read `erased_val` where erased.
    pub open spec fn fits(&self, device: DeviceName, align: usize, erased_val: u8) -> bool {
        &&& all_wf(self.flash@)
        &&& self.areadesc.wf()
        &&& states(self.flash@) == device_sizes(device).map_values(
            |sizes: Seq<usize>| fresh_device(sizes, align, erased_val),
        )
        &&& self.areadesc@ == device_layout(device)
        &&& self.unsupported@ == unsupported_caps(device)
    }
}

/// STM style flash.  Large sectors, with a large scratch area.
fn make_stm32f4(align: usize, erased_val: u8) -> (made: Layout)
    requires
        is_pow2(align),
    ensures
        made.fits(DeviceName::Stm32f4, align, erased_val),
{
    let mut flash: SimMultiFlash = HashMap::new();
    let mut areadesc = AreaDesc::new();
    let mut unsupported: Vec<Caps> = Vec::new();
    let ghost bare = bare_table(device_sizes(DeviceName::Stm32f4));
    let mut sizes: Vec<usize> = Vec::new();
    sizes.push(16 * 1024);
    sizes.push(16 * 1024);
    sizes.push(16 * 1024);
    sizes.push(16 * 1024);
    sizes.push(64 * 1024);
    sizes.push(128 * 1024);
    sizes.push(128 * 1024);
    sizes.push(128 * 1024);
    assert(sizes@ =~= stm32f4_sectors());
    proof {
        reveal_with_fuel(sector_base, 10);
        reveal_with_fuel(covering, 10);
    }
    let dev = SimFlash::new(sizes, align, erased_val);
    assert(dev@.bad_regions =~= Seq::<crate::flash::BadRegion>::empty());
    assert(dev@ =~= fresh_device(stm32f4_sectors(), align, erased_val));
    areadesc.add_flash_sectors(0, &dev);
    assert(areadesc@.sectors =~= bare.sectors);
    areadesc.add_image(0x020000, 0x020000, FlashId::Image0, 0);
    areadesc.add_image(0x040000, 0x020000, FlashId::Image1, 0);
    areadesc.add_image(0x060000, 0x020000, FlashId::ImageScratch, 0);
    flash.insert(0, dev);
    unsupported.push(Caps::SwapUsingMove);
    assert(unsupported@ =~= unsupported_caps(DeviceName::Stm32f4));
    assert(states(flash@) =~= device_sizes(DeviceName::Stm32f4).map_values(
        |sizes: Seq<usize>| fresh_device(sizes, align, erased_val),
    ));
    Layout { flash, areadesc, unsupported }
}

/// NXP style flash.  Small sectors, one small sector for scratch.
fn make_k64f(align: usize, erased_val: u8) -> (made: Layout)
    requires
        is_pow2(align),
    ensures
        made.fits(DeviceName::K64f, align, erased_val),
{
    let mut flash: SimMultiFlash = HashMap::new();
    let mut areadesc = AreaDesc::new();
    let mut unsupported: Vec<Caps> = Vec::new();
    let ghost bare = bare_table(device_sizes(DeviceName::K64f));
    let dev = uniform_flash(128, 4096, align, erased_val);
    areadesc.add_flash_sectors(0, &dev);
    assert(areadesc@.sectors =~= bare.sectors);
    add_sectors(&mut areadesc, 128, 4096, 32, 32, FlashId::Image0, 0);
    add_sectors(&mut areadesc, 128, 4096, 64, 32, FlashId::Image1, 0);
    add_sectors(&mut areadesc, 128, 4096, 96, 1, FlashId::ImageScratch, 0);
    flash.insert(0, dev);
    assert(unsupported@ =~= unsupported_caps(DeviceName::K64f));
    assert(states(flash@) =~= device_sizes(DeviceName::K64f).map_values(
        |sizes: Seq<usize>| fresh_device(sizes, align, erased_val),
    ));
    Layout { flash, areadesc, unsupported }
}

/// Simulating an STM style flash on top of an NXP style flash.  Underlying flash device
/// uses small sectors, but we tell the bootloader they are large.
fn make_k64f_big(align: usize, erased_val: u8) -> (made: Layout)
    requires
        is_pow2(align),
    ensures
        made.fits(DeviceName::K64fBig, align, erased_val),
{
    let mut flash: SimMultiFlash = HashMap::new();
    let mut areadesc = AreaDesc::new();
    let mut unsupported: Vec<Caps> = Vec::new();
    let ghost bare = bare_table(device_sizes(DeviceName::K64fBig));
    let dev = uniform_flash(128, 4096, align, erased_val);
    areadesc.add_flash_sectors(0, &dev);
    assert(areadesc@.sectors =~= bare.sectors);
    areadesc.add_simple_image(0x020000, 0x020000, FlashId::Image0, 0);
    areadesc.add_simple_image(0x040000, 0x020000, FlashId::Image1, 0);
    areadesc.add_simple_image(0x060000, 0x020000, FlashId::ImageScratch, 0);
    flash.insert(0, dev);
    unsupported.push(Caps::SwapUsingMove);
    assert(unsupported@ =~= unsupported_caps(DeviceName::K64fBig));
    assert(states(flash@) =~= device_sizes(DeviceName::K64fBig).map_values(
        |sizes: Seq<usize>| fresh_device(sizes, align, erased_val),
    ));
    Layout { flash, areadesc, unsupported }
}

/// Simulating the flash on the nrf52840 with partitions set up so that the scratch size
/// does not divide into the image size.
fn make_nrf52840(align: usize, erased_val: u8) -> (made: Layout)
    requires
        is_pow2(align),
    ensures
        made.fits(DeviceName::Nrf52840, align, erased_val),
{
    let mut flash: SimMultiFlash = HashMap::new();
    let mut areadesc = AreaDesc::new();
    let mut unsupported: Vec<Caps> = Vec::new();
    let ghost bare = bare_table(device_sizes(DeviceName::Nrf52840));
    let dev = uniform_flash(128, 4096, align, erased_val);
    areadesc.add_flash_sectors(0, &dev);
    assert(areadesc@.sectors =~= bare.sectors);
    add_sectors(&mut areadesc, 128, 4096, 8, 52, FlashId::Image0, 0);
    add_sectors(&mut areadesc, 128, 4096, 60, 52, FlashId::Image1, 0);
    add_sectors(&mut areadesc, 128, 4096, 112, 13, FlashId::ImageScratch, 0);
    flash.insert(0, dev);
    assert(unsupported@ =~= unsupported_caps(DeviceName::Nrf52840));
    assert(states(flash@) =~= device_sizes(DeviceName::Nrf52840).map_values(
        |sizes: Seq<usize>| fresh_device(sizes, align, erased_val),
    ));
    Layout { flash, areadesc, unsupported }
}

/// An nrf52840 whose secondary slot is one sector smaller than its primary slot.
fn make_nrf52840_unequal(align: usize, erased_val: u8) -> (made: Layout)
    requires
        is_pow2(align),
    ensures
        made.fits(DeviceName::Nrf52840UnequalSlots, align, erased_val),
{
    let mut flash: SimMultiFlash = HashMap::new();
    let mut areadesc = AreaDesc::new();
    let mut unsupported: Vec<Caps> = Vec::new();
    let ghost bare = bare_table(device_sizes(DeviceName::Nrf52840UnequalSlots));
    let dev = uniform_flash(128, 4096, align, erased_val);
    areadesc.add_flash_sectors(0, &dev);
    assert(areadesc@.sectors =~= bare.sectors);
    add_sectors(&mut areadesc, 128, 4096, 8, 60, FlashId::Image0, 0);
    add_sectors(&mut areadesc, 128, 4096, 68, 59, FlashId::Image1, 0);
    flash.insert(0, dev);
    unsupported.push(Caps::SwapUsingScratch);
    unsupported.push(Caps::OverwriteUpgrade);
    assert(unsupported@ =~= unsupported_caps(DeviceName::Nrf52840UnequalSlots));
    assert(states(flash@) =~= device_sizes(DeviceName::Nrf52840UnequalSlots).map_values(
        |sizes: Seq<usize>| fresh_device(sizes, align, erased_val),
    ));
    Layout { flash, areadesc, unsupported }
}

/// Simulate nrf52840 with external SPI flash. The external SPI flash
/// has a larger sector size so for now store scratch on that flash.
fn make_nrf52840_spi(align: usize, erased_val: u8) -> (made: Layout)
    requires
        is_pow2(align),
    ensures
        made.fits(DeviceName::Nrf52840SpiFlash, align, erased_val),
{
    let mut flash: SimMultiFlash = HashMap::new();
    let mut areadesc = AreaDesc::new();
    let mut unsupported: Vec<Caps> = Vec::new();
    let ghost bare = bare_table(device_sizes(DeviceName::Nrf52840SpiFlash));
    let dev0 = uniform_flash(128, 4096, align, erased_val);
    let dev1 = uniform_flash(64, 8192, align, erased_val);
    areadesc.add_flash_sectors(0, &dev0);
    areadesc.add_flash_sectors(1, &dev1);
    assert(areadesc@.sectors =~= bare.sectors);
    add_sectors(&mut areadesc, 128, 4096, 8, 104, FlashId::Image0, 0);
    add_sectors(&mut areadesc, 64, 8192, 0, 52, FlashId::Image1, 1);
    add_sectors(&mut areadesc, 64, 8192, 52, 12, FlashId::ImageScratch, 1);
    flash.insert(0, dev0);
    flash.insert(1, dev1);
    unsupported.push(Caps::SwapUsingMove);
    assert(unsupported@ =~= unsupported_caps(DeviceName::Nrf52840SpiFlash));
    assert(states(flash@) =~= device_sizes(DeviceName::Nrf52840SpiFlash).map_values(
        |sizes: Seq<usize>| fresh_device(sizes, align, erased_val),
    ));
    Layout { flash, areadesc, unsupported }
}

/// NXP style flash, but larger, to support multiple images.
fn make_k64f_multi(align: usize, erased_val: u8) -> (made: Layout)
    requires
        is_pow2(align),
    ensures
        made.fits(DeviceName::K64fMulti, align, erased_val),
{
    let mut flash: SimMultiFlash = HashMap::new();
    let mut areadesc = AreaDesc::new();
    let mut unsupported: Vec<Caps> = Vec::new();
    let ghost bare = bare_table(device_sizes(DeviceName::K64fMulti));
    let dev = uniform_flash(256, 4096, align, erased_val);
    areadesc.add_flash_sectors(0, &dev);
    assert(areadesc@.sectors =~= bare.sectors);
    add_sectors(&mut areadesc, 256, 4096, 32, 32, FlashId::Image0, 0);
    add_sectors(&mut areadesc, 256, 4096, 64, 32, FlashId::Image1, 0);
    add_sectors(&mut areadesc, 256, 4096, 96, 1, FlashId::ImageScratch, 0);
    add_sectors(&mut areadesc, 256, 4096, 128, 32, FlashId::Image2, 0);
    add_sectors(&mut areadesc, 256, 4096, 160, 32, FlashId::Image3, 0);
    flash.insert(0, dev);
    assert(unsupported@ =~= unsupported_caps(DeviceName::K64fMulti));
    assert(states(flash@) =~= device_sizes(DeviceName::K64fMulti).map_values(
        |sizes: Seq<usize>| fresh_device(sizes, align, erased_val),
    ));
    Layout { flash, areadesc, unsupported }
}

/// Build the Flash and area descriptor for a given device.
pub fn make_device(device: DeviceName, align: usize, erased_val: u8) -> (made: Layout)
    requires
        is_pow2(align),
    ensures
        made.fits(device, align, erased_val),
{
    match device {
        DeviceName::Stm32f4 => make_stm32f4(align, erased_val),
        DeviceName::K64f => make_k64f(align, erased_val),
        DeviceName::K64fBig => make_k64f_big(align, erased_val),
        DeviceName::Nrf52840 => make_nrf52840(align, erased_val),
        DeviceName::Nrf52840UnequalSlots => make_nrf52840_unequal(align, erased_val),
        DeviceName::Nrf52840SpiFlash => make_nrf52840_spi(align, erased_val),
        DeviceName::K64fMulti => make_k64f_multi(align, erased_val),
    }
}

} // verus!
