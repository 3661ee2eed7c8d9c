use bootsim::area::{AreaDesc, FlashId};
use bootsim::builder::{install_pair, install_ptable, install_table, ImagesBuilder, SlotContent};
use bootsim::caps::{BootInfo, Caps};
use bootsim::checks::{Images, OneImage};
use bootsim::depends::{no_deps, BoringDep};
use bootsim::device::{all_devices, DeviceName};
use bootsim::flash::{sample_of, SimFlash};
use bootsim::image::{install_no_image, Abort, ImageData, SimMultiFlash, SlotInfo};
use bootsim::install::install_image;
use bootsim::multiflash::read_at;
use bootsim::scenario::Op;
use bootsim::scripts::draw_resets;
use bootsim::status::Scenario;
use bootsim::tlv::{KeyRing, ManifestGen, TlvGen};

fn empty_keys() -> KeyRing {
    KeyRing {
        rsa2048_private: vec![],
        rsa2048_public: vec![],
        rsa3072_private: vec![],
        rsa3072_public: vec![],
        ecdsa_private: vec![],
        ecdsa_public: vec![],
        ed25519_private: vec![],
        ed25519_public: vec![],
        enc_ec256_public: vec![],
        enc_x25519_public: vec![],
    }
}

fn boot_info(caps: u32) -> BootInfo {
    BootInfo { caps, num_images: 1, magic_sz: 16, max_align: 8, trailer_sz: 432, status_sz: 384 }
}

fn device_of(align: usize) -> SimMultiFlash {
    let mut flash = SimMultiFlash::new();
    flash.insert(0, SimFlash::new(vec![4096; 64], align, 0xff));
    flash
}

fn contents(flash: &SimMultiFlash, id: u8) -> Vec<u8> {
    read_at(flash, id, 0, flash[&id].device_size()).unwrap()
}

fn copy_of(image: &ImageData) -> ImageData {
    ImageData { plain: image.plain.clone(), cipher: image.cipher.clone() }
}

fn shown(script: Result<Vec<Op>, Abort>) -> Result<String, Abort> {
    script.map(|ops| format!("{:?}", ops))
}

fn slot_at(index: usize, base_off: usize) -> SlotInfo {
    SlotInfo { base_off, trailer_off: base_off + 0x10000 - 48, len: 0x10000, index, dev_id: 0 }
}

#[test]
fn bare_image_is_as_long_as_its_parts() {
    let info = boot_info(0);
    let dep = BoringDep::new(0, &no_deps());
    // Header 32, payload 1000, manifest header 4, hash 36: 1072 bytes, which
    // an alignment of 32 fills up to 1088.
    for (align, want) in [(1usize, 1072usize), (8, 1072), (32, 1088), (64, 1088), (128, 1152)] {
        let mut flash = device_of(align);
        let place = slot_at(0, 0x10000);
        let image =
            install_image(&mut flash, &place, 1000, &dep, false, &info, &empty_keys(), &None)
                .unwrap();
        assert_eq!(image.plain.len(), want);
        assert_eq!(image.cipher, None);
        assert_eq!(read_at(&flash, 0, 0x10000, want), Ok(image.plain.clone()));
        // The bytes before and after the image are as they were.
        assert_eq!(read_at(&flash, 0, 0x10000 - 64, 64), Ok(vec![0xff; 64]));
        assert_eq!(read_at(&flash, 0, 0x10000 + want, 64), Ok(vec![0xff; 64]));
    }
}

#[test]
fn bare_image_is_refused_where_it_cannot_be_made_or_written() {
    let info = boot_info(0);
    let dep = BoringDep::new(0, &no_deps());
    // Too short for the text at its start.
    let mut flash = device_of(8);
    let before = contents(&flash, 0);
    let place = slot_at(0, 0x10000);
    assert_eq!(
        install_image(&mut flash, &place, 4, &dep, false, &info, &empty_keys(), &None),
        Err(Abort::ImageTooSmall)
    );
    assert!(contents(&flash, 0) == before);
    // A slot that does not begin at a multiple of the alignment.
    let odd = slot_at(0, 0x10004);
    let refused = install_image(&mut flash, &odd, 1000, &dep, false, &info, &empty_keys(), &None);
    assert!(matches!(refused, Err(Abort::Fault(_))), "{:?}", refused.err());
    assert!(contents(&flash, 0) == before);
    // A slot that holds an image already.
    let first = install_image(&mut flash, &place, 1000, &dep, false, &info, &empty_keys(), &None);
    assert!(first.is_ok());
    let held = contents(&flash, 0);
    assert!(matches!(
        install_image(&mut flash, &place, 1000, &dep, false, &info, &empty_keys(), &None),
        Err(Abort::Fault(_))
    ));
    assert!(contents(&flash, 0) == held);
    // A device that is not there.
    let mut nothing = SimMultiFlash::new();
    assert_eq!(
        install_image(&mut nothing, &place, 1000, &dep, false, &info, &empty_keys(), &None),
        Err(Abort::NoDevice)
    );
}

#[test]
fn pair_is_installed_where_the_slots_lie_apart() {
    let info = boot_info(0);
    let dep = BoringDep::new(0, &no_deps());
    let slots = [slot_at(0, 0x10000), slot_at(1, 0x20000)];
    let primary = SlotContent::Image { len: 1000, bad_sig: false };
    let upgrade = SlotContent::Image { len: 2000, bad_sig: false };
    let mut flash = device_of(8);
    let image =
        install_pair(&mut flash, &slots, &dep, primary, upgrade, &info, &empty_keys(), &None)
            .unwrap();
    assert_eq!(image.slots, slots);
    assert_eq!(image.primaries.plain.len(), 1072);
    assert_eq!(image.upgrades.plain.len(), 2072);
    assert_eq!(read_at(&flash, 0, 0x10000, 1072), Ok(image.primaries.plain.clone()));
    assert_eq!(read_at(&flash, 0, 0x20000, 2072), Ok(image.upgrades.plain.clone()));
    // The second image would lie over the first.
    let close = [slot_at(0, 0x10000), slot_at(1, 0x10400)];
    let mut flash = device_of(8);
    assert!(matches!(
        install_pair(&mut flash, &close, &dep, primary, upgrade, &info, &empty_keys(), &None),
        Err(Abort::Fault(_))
    ));
}

#[test]
fn pair_with_nothing_to_install_does_nothing() {
    let info = boot_info(0);
    let dep = BoringDep::new(0, &no_deps());
    let slots = [slot_at(0, 0x10000), slot_at(1, 0x20000)];
    let mut flash = SimMultiFlash::new();
    let image = install_pair(
        &mut flash,
        &slots,
        &dep,
        SlotContent::Nothing,
        SlotContent::Nothing,
        &info,
        &empty_keys(),
        &None,
    )
    .unwrap();
    assert!(flash.is_empty());
    assert_eq!(image.primaries, install_no_image());
    assert_eq!(image.upgrades, install_no_image());
    // An image for a device that is not there.
    let made = install_pair(
        &mut flash,
        &slots,
        &dep,
        SlotContent::Image { len: 1000, bad_sig: false },
        SlotContent::Nothing,
        &info,
        &empty_keys(),
        &None,
    );
    assert_eq!(made.err(), Some(Abort::NoDevice));
}

#[test]
fn every_device_has_room_for_bare_images() {
    let info = boot_info(0);
    let keys = empty_keys();
    for device in all_devices() {
        let build = || ImagesBuilder::new(device, 8, 0xff, &info);
        if build().is_err() {
            continue;
        }
        let plain = build().unwrap().make_no_upgrade_image(&no_deps(), &info, &keys, &None);
        let plain = plain.unwrap();
        assert_eq!(plain.images[0].primaries.plain.len(), 42856);
        assert_eq!(plain.images[0].upgrades.plain.len(), 47000);
        assert_eq!(plain.confirm(&info), Ok(()));
        let marked = build().unwrap().make_image(&no_deps(), &info, &keys, &None).unwrap();
        assert_eq!(marked.confirm(&info), Ok(()));
        let bad = build().unwrap().make_bad_secondary_slot_image(&info, &keys, &None).unwrap();
        assert_eq!(bad.images[0].primaries.plain.len(), 32856);
        assert_eq!(bad.images[0].upgrades.plain.len(), 42000);
        let erased = build().unwrap().make_erased_secondary_image(&info, &keys, &None).unwrap();
        assert_eq!(erased.images[0].primaries.plain.len(), 32856);
        assert_eq!(erased.images[0].upgrades, install_no_image());
        let bootstrap = build().unwrap().make_bootstrap_image(&info, &keys, &None).unwrap();
        assert_eq!(bootstrap.images[0].primaries, install_no_image());
        assert_eq!(bootstrap.images[0].upgrades.plain.len(), 32856);
    }
}

#[test]
fn images_are_not_made_without_room() {
    let info = boot_info(0);
    let keys = empty_keys();
    // The primary slot holds something already.
    let mut builder = ImagesBuilder::new(DeviceName::K64f, 8, 0xff, &info).unwrap();
    let place = builder.slots[0][0];
    builder.flash.get_mut(&place.dev_id).unwrap().write(place.base_off, &[0u8; 8]).unwrap();
    let made = builder.make_images(
        &no_deps(),
        SlotContent::Image { len: 1000, bad_sig: false },
        SlotContent::Nothing,
        &info,
        &keys,
        &None,
    );
    assert!(matches!(made.err(), Some(Abort::Fault(_))));
    // Something lies where the partition table goes.
    let mut builder = ImagesBuilder::new(DeviceName::K64f, 8, 0xff, &info).unwrap();
    builder.flash.get_mut(&0).unwrap().write(0, &[0u8; 8]).unwrap();
    let made = builder.make_no_upgrade_image(&no_deps(), &info, &keys, &None);
    assert!(matches!(made.err(), Some(Abort::Fault(_))));
    // Something lies where the mark of the upgrade goes.
    let mut builder = ImagesBuilder::new(DeviceName::K64f, 8, 0xff, &info).unwrap();
    let place = builder.slots[0][1];
    let at = place.trailer_off + info.max_align * 4;
    builder.flash.get_mut(&place.dev_id).unwrap().write(at, &[0u8; 16]).unwrap();
    let made = builder.make_image(&no_deps(), &info, &keys, &None);
    assert!(matches!(made.err(), Some(Abort::Fault(_))));
    // The images are too short for the text at their start.
    let builder = ImagesBuilder::new(DeviceName::K64f, 8, 0xff, &info).unwrap();
    let made = builder.make_images(
        &no_deps(),
        SlotContent::Image { len: 4, bad_sig: false },
        SlotContent::Nothing,
        &info,
        &keys,
        &None,
    );
    assert_eq!(made.err(), Some(Abort::ImageTooSmall));
}

#[test]
fn table_is_written_or_gives_way_or_fails() {
    let mut desc = AreaDesc::new();
    desc.add_simple_image(0, 0x1000, FlashId::Image0, 5);
    desc.add_simple_image(0x1000, 0x1000, FlashId::Image1, 6);
    // Where the table would collide, nothing is done, device or not.
    let mut flash = SimMultiFlash::new();
    assert_eq!(install_table(&mut flash, desc.iter_areas(), 5), Ok(false));
    assert!(flash.is_empty());
    // Else the device has to be there.
    assert_eq!(install_table(&mut flash, desc.iter_areas(), 6), Err(Abort::NoDevice));
    flash.insert(6, SimFlash::new(vec![4096; 4], 8, 0xff));
    let before = contents(&flash, 6);
    assert_eq!(install_table(&mut flash, desc.iter_areas(), 6), Ok(true));
    assert!(contents(&flash, 6) != before);
    // Written again, the table meets programmed bytes, and nothing changes.
    let held = contents(&flash, 6);
    assert!(matches!(install_table(&mut flash, desc.iter_areas(), 6), Err(Abort::Fault(_))));
    assert!(contents(&flash, 6) == held);
    // A device too small for its table.
    let mut small = SimMultiFlash::new();
    small.insert(6, SimFlash::new(vec![16], 8, 0xff));
    assert!(matches!(install_table(&mut small, desc.iter_areas(), 6), Err(Abort::Fault(_))));
    // The tables of all devices: the first device gives way, the second
    // has to be there.
    let mut none = SimMultiFlash::new();
    assert_eq!(install_ptable(&mut none, &desc), Err(Abort::NoDevice));
    let mut one = SimMultiFlash::new();
    one.insert(6, SimFlash::new(vec![4096; 4], 8, 0xff));
    assert_eq!(install_ptable(&mut one, &desc), Ok(()));
    assert_eq!(read_at(&one, 6, 0, 8), Ok(b"mcuboot\0".to_vec()));
    // With room on the first device, the second has to be there too.
    let mut desc = AreaDesc::new();
    desc.add_simple_image(0x1000, 0x1000, FlashId::Image0, 5);
    desc.add_simple_image(0x1000, 0x1000, FlashId::Image1, 6);
    let mut flash = SimMultiFlash::new();
    flash.insert(5, SimFlash::new(vec![4096; 4], 8, 0xff));
    assert_eq!(install_ptable(&mut flash, &desc), Err(Abort::NoDevice));
    let mut flash = SimMultiFlash::new();
    flash.insert(5, SimFlash::new(vec![4096; 4], 8, 0xff));
    flash.insert(6, SimFlash::new(vec![4096; 4], 8, 0xff));
    assert_eq!(install_ptable(&mut flash, &desc), Ok(()));
    assert_eq!(read_at(&flash, 5, 0, 8), Ok(b"mcuboot\0".to_vec()));
    assert_eq!(read_at(&flash, 6, 0, 8), Ok(b"mcuboot\0".to_vec()));
}

#[test]
fn confirm_tells_what_is_not_found() {
    let info = boot_info(0);
    let builder = ImagesBuilder::new(DeviceName::K64f, 8, 0xff, &info).unwrap();
    let images = builder.make_no_upgrade_image(&no_deps(), &info, &empty_keys(), &None).unwrap();
    assert_eq!(images.confirm(&info), Ok(()));
    // An image that would lie beyond the end of its device.
    let far = Images {
        flash: images.flash.clone(),
        areadesc: AreaDesc::new(),
        images: vec![OneImage {
            slots: [slot_at(0, 0x7ff00), slot_at(1, 0x40000)],
            primaries: copy_of(&images.images[0].primaries),
            upgrades: copy_of(&images.images[0].upgrades),
        }],
        total_count: None,
    };
    assert_eq!(far.confirm(&info), Err(Abort::OutOfBounds));
    // An image that is somewhere else.
    let moved = Images {
        flash: images.flash.clone(),
        areadesc: AreaDesc::new(),
        images: vec![OneImage {
            slots: [images.images[0].slots[1], images.images[0].slots[0]],
            primaries: copy_of(&images.images[0].primaries),
            upgrades: copy_of(&images.images[0].upgrades),
        }],
        total_count: None,
    };
    assert_eq!(moved.confirm(&info), Err(Abort::Overlap));
    // No image at all.
    let none = Images {
        flash: SimMultiFlash::new(),
        areadesc: AreaDesc::new(),
        images: vec![],
        total_count: None,
    };
    assert_eq!(none.confirm(&info), Ok(()));
}

#[test]
fn script_is_that_of_the_scenario() {
    for caps in [0u32, Caps::SwapUsingScratch.mask(), Caps::OverwriteUpgrade.mask()] {
        let info = boot_info(caps);
        let mut images = Images {
            flash: SimMultiFlash::new(),
            areadesc: AreaDesc::new(),
            images: vec![],
            total_count: Some(5),
        };
        let fixed: Vec<(Scenario, Vec<Op>)> = vec![
            (Scenario::BasicUpgrade { permanent: true }, images.run_basic_upgrade(true)),
            (Scenario::BasicUpgrade { permanent: false }, images.run_basic_upgrade(false)),
            (Scenario::Bootstrap, images.run_bootstrap(&info)),
            (Scenario::BasicRevert, images.run_basic_revert(&info)),
            (Scenario::PermWithFails, images.run_perm_with_fails(&info)),
            (Scenario::RevertWithFails, images.run_revert_with_fails(&info)),
            (Scenario::NoRevert, images.run_norevert(&info)),
            (Scenario::NoDowngrade, images.run_nodowngrade(&info)),
            (Scenario::NoRevertNewImage, images.run_norevert_newimage()),
            (Scenario::SignfailUpgrade, images.run_signfail_upgrade()),
            (Scenario::SecondaryLeftoverTrailer, images.run_secondary_leftover_trailer()),
            (Scenario::StatusFailsComplete, images.run_with_status_fails_complete(&info)),
            (Scenario::StatusFailsWithReset, images.run_with_status_fails_with_reset(&info)),
        ];
        for (scenario, want) in fixed {
            assert_eq!(shown(images.script(scenario, &info)), shown(Ok(want)));
        }
        // Two scenarios differ.
        assert!(
            shown(images.script(Scenario::NoRevertNewImage, &info))
                != shown(images.script(Scenario::SignfailUpgrade, &info))
        );
        // Five operations leave no room for three budgets, a hundred do.
        assert_eq!(
            shown(images.script(Scenario::PermWithRandomFails(3), &info)),
            Err(Abort::NoRoom)
        );
        assert_eq!(
            images.script(Scenario::PermWithRandomFails(0), &info).map(|ops| ops.len()),
            Ok(if info.is_swap_upgrade() { 8 } else { 7 })
        );
        images.total_count = Some(100);
        for _ in 0..50 {
            let drawn = images.script(Scenario::PermWithRandomFails(3), &info).unwrap();
            assert_eq!(drawn.len(), if info.is_swap_upgrade() { 14 } else { 13 });
        }
        // A negative count serves every sweep but that of status failures.
        images.total_count = Some(-1);
        assert_eq!(
            shown(images.script(Scenario::StatusFailsWithReset, &info)),
            Err(Abort::NoRoom)
        );
        assert!(images.script(Scenario::PermWithFails, &info).is_ok());
        // Without a count there is no sweep.
        images.total_count = None;
        for scenario in [
            Scenario::PermWithFails,
            Scenario::PermWithRandomFails(0),
            Scenario::RevertWithFails,
            Scenario::StatusFailsWithReset,
        ] {
            assert_eq!(shown(images.script(scenario, &info)), Err(Abort::NoRoom));
        }
        assert_eq!(
            shown(images.script(Scenario::Bootstrap, &info)),
            shown(Ok(images.run_bootstrap(&info)))
        );
    }
}

#[test]
fn budgets_are_drawn_where_there_is_room() {
    // Sixteen operations have room for three budgets whatever is drawn:
    // eight are left after the largest first draw, four after the second.
    for _ in 0..200 {
        let resets = draw_resets(16, 3).unwrap();
        assert_eq!(resets.len(), 3);
        assert!(resets.iter().all(|r| *r >= 1));
        assert!(resets.iter().sum::<i32>() < 16);
    }
    // Seven operations have room for three budgets too, five have not.
    for _ in 0..200 {
        assert_eq!(draw_resets(7, 3).map(|resets| resets.len()), Ok(3));
        assert_eq!(draw_resets(5, 3), Err(Abort::NoRoom));
    }
    assert_eq!(draw_resets(3, 1), Err(Abort::NoRoom));
    assert_eq!(draw_resets(-5, 0), Ok(vec![]));
}

#[test]
fn sample_is_the_upper_part_of_the_word() {
    assert_eq!(sample_of(0), 0);
    assert_eq!(sample_of(0xff), 0);
    assert_eq!(sample_of(0x100), 1);
    assert_eq!(sample_of(0x1234_5678), 0x12_3456);
    assert_eq!(sample_of(0xffff_ffff), 0xff_ffff);
}

#[test]
fn image_key_is_what_was_drawn() {
    let mut tlv = TlvGen::new_ecies_p256();
    assert!(!tlv.keep_enc_key(None));
    assert!(!tlv.has_enc_key());
    assert!(tlv.keep_enc_key(Some(vec![7; 16])));
    assert_eq!(tlv.get_enc_key(), vec![7; 16]);
    assert!(!tlv.keep_enc_key(None));
    assert_eq!(tlv.get_enc_key(), vec![7; 16]);
    // A key from the random source has sixteen bytes and takes the place of
    // the one before.
    assert!(tlv.generate_enc_key());
    let first = tlv.get_enc_key();
    assert_eq!(first.len(), 16);
    assert!(first != vec![7; 16]);
}
