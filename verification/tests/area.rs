use bootsim::area::{AreaDesc, FlashArea, FlashId};
use bootsim::flash::{Sector, SimFlash};

fn stm() -> SimFlash {
    SimFlash::new(
        vec![16 * 1024, 16 * 1024, 16 * 1024, 16 * 1024, 64 * 1024, 128 * 1024, 128 * 1024, 128 * 1024],
        1,
        0xff,
    )
}

#[test]
fn add_image_covers_whole_sectors() {
    let flash = SimFlash::new(vec![4096; 128], 1, 0xff);
    let mut desc = AreaDesc::new();
    desc.add_flash_sectors(0, &flash);
    assert!(desc.can_add_image(0x020000, 0x020000, FlashId::Image0, 0));
    desc.add_image(0x020000, 0x020000, FlashId::Image0, 0);
    desc.add_image(0x040000, 0x020000, FlashId::Image1, 0);
    desc.add_image(0x060000, 0x001000, FlashId::ImageScratch, 0);
    assert_eq!(desc.find(FlashId::Image0), Some((0x020000, 0x020000, 0)));
    assert_eq!(desc.find(FlashId::Image1), Some((0x040000, 0x020000, 0)));
    assert_eq!(desc.find(FlashId::ImageScratch), Some((0x060000, 0x001000, 0)));
    assert_eq!(desc.find(FlashId::Image2), None);
    // The place that was passed over is blank in the table, and is no slot.
    assert_eq!(desc.find(FlashId::BootLoader), None);
    let whole = desc.iter_areas();
    assert_eq!(whole.len(), 4);
    assert_eq!(
        whole[1],
        FlashArea { flash_id: FlashId::Image0, device_id: 0, off: 0x020000, size: 0x020000 }
    );
    let flat = desc.get_c();
    assert_eq!(flat.num_slots, 4);
    assert_eq!(flat.slots.len(), 16);
    assert_eq!(flat.slots[0].num_areas, 0);
    assert_eq!(flat.slots[0].id, FlashId::BootLoader);
    assert_eq!(flat.slots[1].num_areas, 32);
    assert_eq!(flat.slots[1].id, FlashId::Image0);
    assert_eq!(flat.slots[1].whole, whole[1]);
    for (i, area) in flat.slots[1].areas.iter().enumerate() {
        assert_eq!(
            *area,
            FlashArea {
                flash_id: FlashId::Image0,
                device_id: 0,
                off: (0x020000 + i * 4096) as u32,
                size: 4096
            }
        );
    }
    assert_eq!(flat.slots[3].num_areas, 1);
    assert_eq!(flat.slots[4].num_areas, 0);
    assert!(flat.slots[4].areas.is_empty());
    assert_eq!(flat.slots[15].whole, FlashArea::default());
}

#[test]
fn add_image_on_uneven_sectors() {
    let mut desc = AreaDesc::new();
    desc.add_flash_sectors(3, &stm());
    assert_eq!(
        desc.covering_sectors(0x10000, 0x30000, 3),
        Some(vec![
            Sector { num: 4, base: 0x10000, size: 0x10000 },
            Sector { num: 5, base: 0x20000, size: 0x20000 },
        ])
    );
    assert_eq!(desc.covering_sectors(0x10000, 0, 3), Some(vec![]));
    // Begins inside a sector.
    assert_eq!(desc.covering_sectors(0x11000, 0x10000, 3), None);
    // Ends inside a sector.
    assert_eq!(desc.covering_sectors(0x10000, 0x18000, 3), None);
    // Runs past the end of the device.
    assert_eq!(desc.covering_sectors(0x60000, 0x40000, 3), None);
    assert_eq!(desc.covering_sectors(0x80000, 0x1000, 3), None);
    assert_eq!(desc.covering_sectors(usize::MAX, 2, 3), None);
    // No such device.
    assert_eq!(desc.covering_sectors(0x10000, 0x10000, 0), None);

    assert!(!desc.can_add_image(0x11000, 0x10000, FlashId::Image0, 3));
    assert!(!desc.can_add_image(0x10000, 0x10000, FlashId::Image0, 0));
    assert!(desc.can_add_image(0x10000, 0x10000, FlashId::Image1, 3));
    desc.add_image(0x10000, 0x10000, FlashId::Image1, 3);
    assert_eq!(desc.iter_areas().len(), 3);
    // Slots are added in the order of their numbers.
    assert!(!desc.can_add_image(0x20000, 0x20000, FlashId::Image0, 3));
    assert!(!desc.can_add_image(0x20000, 0x20000, FlashId::Image1, 3));
    assert!(desc.can_add_image(0x20000, 0x20000, FlashId::ImageScratch, 3));
    assert!(desc.can_add_image(0x20000, 0x20000, FlashId::Image3, 3));
    desc.add_image(0x20000, 0x20000, FlashId::Image3, 3);
    assert_eq!(desc.iter_areas().len(), 6);
    assert_eq!(desc.find(FlashId::Image3), Some((0x20000, 0x20000, 3)));
    let flat = desc.get_c();
    assert_eq!(flat.num_slots, 6);
    assert_eq!(flat.slots[5].areas.len(), 1);
    assert_eq!(flat.slots[5].areas[0].device_id, 3);
}

#[test]
fn simple_image_is_one_area() {
    let flash = SimFlash::new(vec![4096; 128], 1, 0xff);
    let mut desc = AreaDesc::new();
    desc.add_flash_sectors(0, &flash);
    desc.add_simple_image(0x020000, 0x020000, FlashId::Image0, 0);
    desc.add_simple_image(0x040000, 0x020000, FlashId::Image1, 0);
    // No slot is left blank, whatever the numbers of the partitions.
    assert_eq!(desc.iter_areas().len(), 2);
    assert_eq!(desc.find(FlashId::Image1), Some((0x040000, 0x020000, 0)));
    assert_eq!(desc.find(FlashId::BootLoader), None);
    let flat = desc.get_c();
    assert_eq!(flat.num_slots, 2);
    assert_eq!(flat.slots[0].id, FlashId::Image0);
    assert_eq!(flat.slots[0].num_areas, 1);
    assert_eq!(flat.slots[0].areas, vec![desc.iter_areas()[0]]);
}

#[test]
fn find_reports_the_first_slot_with_the_id() {
    let mut desc = AreaDesc::new();
    desc.add_simple_image(0x1000, 0x100, FlashId::Image0, 0);
    desc.add_simple_image(0x2000, 0x200, FlashId::Image0, 1);
    assert_eq!(desc.find(FlashId::Image0), Some((0x1000, 0x100, 0)));
}

#[test]
fn flash_ids_have_their_numbers() {
    assert_eq!(FlashId::BootLoader.number(), 0);
    assert_eq!(FlashId::Image0.number(), 1);
    assert_eq!(FlashId::Image1.number(), 2);
    assert_eq!(FlashId::ImageScratch.number(), 3);
    assert_eq!(FlashId::Image2.number(), 4);
    assert_eq!(FlashId::Image3.number(), 5);
    assert_eq!(FlashId::default(), FlashId::BootLoader);
}

#[test]
fn only_slots_that_were_added_are_found() {
    let flash = SimFlash::new(vec![4096; 128], 1, 0xff);
    let mut desc = AreaDesc::new();
    desc.add_flash_sectors(0, &flash);
    assert_eq!(desc.find(FlashId::BootLoader), None);
    desc.add_image(0x020000, 0x020000, FlashId::Image0, 0);
    assert_eq!(desc.find(FlashId::Image0), Some((0x020000, 0x020000, 0)));
    assert_eq!(desc.find(FlashId::BootLoader), None);
    assert_eq!(desc.find(FlashId::Image1), None);
    // The bootloader's own partition is found once it was added.
    desc.add_image(0, 0x020000, FlashId::BootLoader, 0);
    assert_eq!(desc.find(FlashId::BootLoader), Some((0, 0x020000, 0)));
    // Two places are passed over for the second image.
    let mut desc = AreaDesc::new();
    desc.add_flash_sectors(0, &flash);
    desc.add_image(0x040000, 0x020000, FlashId::Image1, 0);
    assert_eq!(desc.find(FlashId::BootLoader), None);
    assert_eq!(desc.find(FlashId::Image0), None);
    assert_eq!(desc.find(FlashId::Image1), Some((0x040000, 0x020000, 0)));
}
