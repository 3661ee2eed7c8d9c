use aes_ctr::cipher::stream::{NewStreamCipher, SyncStreamCipher};
use bootsim::api::{
    boot_context_for, boot_go, clear_flash, map_err, set_flash, sim_flash_align, sim_flash_erase,
    sim_flash_erased_val, sim_flash_read, sim_flash_write, sim_get_flash_areas,
    sim_reset_flash_areas, sim_set_flash_areas, CSimContext, FlashContext,
};
use bootsim::area::{AreaDesc, FlashId};
use bootsim::builder::{
    install_ptable, install_table, listed_devices, place_slot, BuildError, ImagesBuilder,
};
use bootsim::caps::{BootInfo, Caps};
use bootsim::depends::{no_deps, BoringDep, DepTest, DepType, PairDep, UpgradeInfo};
use bootsim::device::{all_devices, make_device, test_alignments, DeviceName};
use bootsim::flash::{FlashError, SimFlash, WriteFault};
use bootsim::image::{
    assemble, build_image, image_payload, install_no_image, make_tlv, pad_to, splat, Abort,
    ImageData, ImageHeader, ImageVersion, SimMultiFlash, SlotInfo, WrappedKey,
};
use bootsim::install::{
    boot_flag_set, boot_flag_unset, boot_magic_good, boot_magic_unset, device_table,
    install_image, magic_bytes, mark_permanent_upgrade, mark_upgrade, store_image, verify_image,
    verify_trailer,
};
use bootsim::multiflash::{device_params, erase_at, read_at, same_bytes, write_at};
use bootsim::scenario::{BootOutcome, BootRequest};
use bootsim::tlv::{KeyRing, ManifestGen, TlvError, TlvGen, TlvKinds};

const MAGIC: [u8; 16] = [
    0x77, 0xc2, 0x95, 0xf3, 0x60, 0xd2, 0xef, 0x7f, 0x35, 0x52, 0x50, 0x0f, 0x2c, 0xb6, 0x79, 0x80,
];

fn no_keys() -> KeyRing {
    KeyRing {
        rsa2048_private: vec![],
        rsa2048_public: vec![],
        rsa3072_private: vec![],
        rsa3072_public: vec![],
        ecdsa_private: vec![],
        ecdsa_public: vec![],
        ed25519_private: vec![],
        ed25519_public: vec![],
        enc_ec256_public: vec![],
        enc_x25519_public: vec![],
    }
}

fn info(caps: u32, num_images: usize) -> BootInfo {
    BootInfo { caps, num_images, magic_sz: 16, max_align: 8, trailer_sz: 432, status_sz: 384 }
}

fn one_device(align: usize, erased: u8) -> SimMultiFlash {
    let mut flash = SimMultiFlash::new();
    flash.insert(0, SimFlash::new(vec![4096; 64], align, erased));
    flash
}

fn slot(index: usize) -> SlotInfo {
    let base_off = 0x10000 + index * 0x10000;
    SlotInfo { base_off, trailer_off: base_off + 0x10000 - 48, len: 0x10000, index, dev_id: 0 }
}

fn sha256(data: &[u8]) -> Vec<u8> {
    ring::digest::digest(&ring::digest::SHA256, data).as_ref().to_vec()
}

#[test]
fn header_bytes_are_little_endian_fields() {
    let header = ImageHeader {
        magic: 0x96f3b83d,
        load_addr: 0x01020304,
        hdr_size: 32,
        protect_tlv_size: 20,
        img_size: 0x0000a720,
        flags: 4,
        ver: ImageVersion { major: 21, minor: 1, revision: 0x0102, build_num: 0x0a0b0c0d },
        pad: 0,
    };
    assert_eq!(
        header.as_raw(),
        vec![
            0x3d, 0xb8, 0xf3, 0x96, 0x04, 0x03, 0x02, 0x01, 32, 0, 20, 0, 0x20, 0xa7, 0, 0, //
            4, 0, 0, 0, 21, 1, 0x02, 0x01, 0x0d, 0x0c, 0x0b, 0x0a, 0, 0, 0, 0,
        ]
    );
}

#[test]
fn splat_is_the_same_for_the_same_length_and_offset() {
    let a = splat(1000, 0x20000);
    assert_eq!(a.len(), 1000);
    assert_eq!(a, splat(1000, 0x20000));
    assert_ne!(a, splat(1000, 0x40000));
    assert_ne!(a[..999], splat(999, 0x20000)[..]);
    assert!(splat(0, 5).is_empty());
    // Gibberish, not a constant.
    assert!(a.iter().any(|&b| b != a[0]));
}

#[test]
fn payload_begins_with_the_banner() {
    let banner = b"offset: 0x20000\n";
    let payload = image_payload(100, 0x20000, banner).unwrap();
    assert_eq!(payload.len(), 100);
    assert_eq!(&payload[..banner.len()], banner);
    assert_eq!(&payload[banner.len()..], &splat(100, 0x20000)[banner.len()..]);
    assert_eq!(image_payload(banner.len(), 0, banner).unwrap(), banner.to_vec());
    assert_eq!(image_payload(banner.len() - 1, 0, banner), None);
    assert_eq!(image_payload(10, 7, b"").unwrap(), splat(10, 7));
}

#[test]
fn padding_fills_to_the_alignment() {
    let pad = |len: usize, align: usize| {
        let mut buf = vec![1u8; len];
        pad_to(&mut buf, align, 0xee);
        buf
    };
    assert_eq!(pad(5, 1), vec![1; 5]);
    assert_eq!(pad(5, 4), vec![1, 1, 1, 1, 1, 0xee, 0xee, 0xee]);
    assert_eq!(pad(8, 4), vec![1; 8]);
    assert_eq!(pad(0, 8), Vec::<u8>::new());
    assert_eq!(pad(1, 8).len(), 8);
    assert_eq!(
        assemble(&vec![1, 2], &vec![3], &vec![4, 5], 4, 9),
        vec![1, 2, 3, 4, 5, 9, 9, 9]
    );
}

#[test]
fn generator_follows_the_capabilities() {
    let kinds = |caps: u32| -> Vec<TlvKinds> {
        let tlv = make_tlv(caps);
        [
            TlvKinds::SHA256,
            TlvKinds::RSA2048,
            TlvKinds::RSA3072,
            TlvKinds::ECDSA256,
            TlvKinds::ED25519,
            TlvKinds::ENCRSA2048,
            TlvKinds::ENCKW128,
            TlvKinds::ENCEC256,
            TlvKinds::ENCX25519,
        ]
        .iter()
        .copied()
        .filter(|k| tlv.has_kind(*k))
        .collect()
    };
    let m = |caps: &[Caps]| caps.iter().fold(0, |acc, c| acc | c.mask());
    assert_eq!(kinds(0), vec![TlvKinds::SHA256]);
    assert_eq!(kinds(m(&[Caps::RSA2048])), vec![TlvKinds::SHA256, TlvKinds::RSA2048]);
    assert_eq!(kinds(m(&[Caps::RSA3072])), vec![TlvKinds::SHA256, TlvKinds::RSA3072]);
    assert_eq!(kinds(m(&[Caps::EcdsaP256])), vec![TlvKinds::SHA256, TlvKinds::ECDSA256]);
    assert_eq!(kinds(m(&[Caps::Ed25519])), vec![TlvKinds::SHA256, TlvKinds::ED25519]);
    // The first signature scheme wins.
    assert_eq!(
        kinds(m(&[Caps::RSA2048, Caps::RSA3072, Caps::Ed25519])),
        vec![TlvKinds::SHA256, TlvKinds::RSA2048]
    );
    assert_eq!(
        kinds(m(&[Caps::EncKw, Caps::RSA2048])),
        vec![TlvKinds::SHA256, TlvKinds::RSA2048, TlvKinds::ENCKW128]
    );
    assert_eq!(
        kinds(m(&[Caps::EncKw, Caps::EcdsaP256])),
        vec![TlvKinds::SHA256, TlvKinds::ECDSA256, TlvKinds::ENCKW128]
    );
    assert_eq!(kinds(m(&[Caps::EncKw, Caps::Ed25519])), vec![TlvKinds::SHA256, TlvKinds::ENCKW128]);
    assert_eq!(
        kinds(m(&[Caps::EncRsa, Caps::RSA2048])),
        vec![TlvKinds::SHA256, TlvKinds::RSA2048, TlvKinds::ENCRSA2048]
    );
    assert_eq!(kinds(m(&[Caps::EncRsa, Caps::EcdsaP256])), vec![TlvKinds::SHA256, TlvKinds::ENCRSA2048]);
    assert_eq!(
        kinds(m(&[Caps::EncEc256, Caps::EcdsaP256])),
        vec![TlvKinds::SHA256, TlvKinds::ECDSA256, TlvKinds::ENCEC256]
    );
    assert_eq!(kinds(m(&[Caps::EncEc256])), vec![TlvKinds::SHA256, TlvKinds::ENCEC256]);
    assert_eq!(
        kinds(m(&[Caps::EncX25519, Caps::Ed25519])),
        vec![TlvKinds::SHA256, TlvKinds::ED25519, TlvKinds::ENCX25519]
    );
    assert_eq!(kinds(m(&[Caps::EncX25519])), vec![TlvKinds::SHA256, TlvKinds::ENCX25519]);
    // Key wrap comes before the other encryption schemes.
    assert_eq!(kinds(m(&[Caps::EncKw, Caps::EncRsa, Caps::EncX25519])), vec![TlvKinds::SHA256, TlvKinds::ENCKW128]);
    assert_eq!(make_tlv(0).get_flags(), 0);
    assert_eq!(make_tlv(m(&[Caps::EncEc256])).get_flags(), 4);
}

#[test]
fn built_image_is_header_payload_manifest() {
    let dep = BoringDep::new(1, &no_deps());
    let image =
        build_image(&slot(1), 1000, &dep, false, TlvGen::new_hash_only(), &no_keys(), &None, 8, 0xff)
            .unwrap();
    assert_eq!(image.cipher, None);
    let plain = &image.plain;
    assert_eq!(plain.len(), 1072);
    let header = ImageHeader {
        magic: 0x96f3b83d,
        load_addr: 0,
        hdr_size: 32,
        protect_tlv_size: 0,
        img_size: 1000,
        flags: 0,
        ver: ImageVersion { major: 21, minor: 0, revision: 1, build_num: 1 },
        pad: 0,
    };
    assert_eq!(&plain[..32], &header.as_raw()[..]);
    let payload = &plain[32..1032];
    assert!(payload.starts_with(b"offset: 0x20000, dev_id: 0x0, slot_info: SlotInfo { base_off: 131072, "));
    let text = String::from_utf8_lossy(&payload[..200]).into_owned();
    let banner_len = text.find("build_num: 1 }\n").unwrap() + 15;
    assert!(text[..banner_len].contains("\nversion: ImageVersion { major: 21, minor: 0, revision: 1, build_num: 1 }\n"));
    assert_eq!(&payload[banner_len..], &splat(1000, 0x20000)[banner_len..]);
    let mut want = vec![0x07, 0x69, 40, 0, 0x10, 0, 32, 0];
    want.extend_from_slice(&sha256(&plain[..1032]));
    assert_eq!(&plain[1032..], &want[..]);
    // The same build gives the same image.
    let again =
        build_image(&slot(1), 1000, &dep, false, TlvGen::new_hash_only(), &no_keys(), &None, 8, 0xff)
            .unwrap();
    assert_eq!(again.plain, image.plain);
    // With a bad signature only the hash differs.
    let bad =
        build_image(&slot(1), 1000, &dep, true, TlvGen::new_hash_only(), &no_keys(), &None, 8, 0xff)
            .unwrap();
    assert_eq!(bad.plain[..1040], plain[..1040]);
    assert_ne!(bad.plain[1040..], plain[1040..]);
    // Padding.
    let padded =
        build_image(&slot(1), 1001, &dep, false, TlvGen::new_hash_only(), &no_keys(), &None, 8, 0xee)
            .unwrap();
    assert_eq!(padded.plain.len(), 1080);
    assert_eq!(&padded.plain[1073..], &[0xee; 7]);
    // Too small for its banner.
    assert_eq!(
        build_image(&slot(1), 20, &dep, false, TlvGen::new_hash_only(), &no_keys(), &None, 8, 0xff)
            .err(),
        Some(Abort::ImageTooSmall)
    );
}

#[test]
fn built_image_declares_its_dependencies() {
    let test = DepTest {
        depends: [DepType::Newer, DepType::Nothing],
        upgrades: [UpgradeInfo::Held, UpgradeInfo::Held],
        downgrade: false,
    };
    let dep = PairDep::new(2, 0, &test);
    let image =
        build_image(&slot(1), 500, &dep, false, TlvGen::new_hash_only(), &no_keys(), &None, 1, 0xff)
            .unwrap();
    let plain = &image.plain;
    assert_eq!(plain.len(), 32 + 500 + 20 + 40);
    assert_eq!(&plain[10..12], &[20, 0]);
    assert_eq!(
        &plain[532..552],
        &[0x08, 0x69, 20, 0, 0x40, 0, 12, 0, 1, 0, 0, 0, 21, 1, 1, 0, 1, 0, 0, 0]
    );
    assert_eq!(&plain[560..], &sha256(&plain[..552])[..]);
}

#[test]
fn encrypted_image_decrypts_to_the_plain_one() {
    let key: Vec<u8> = (0..16).map(|i| 0x10 + i as u8).collect();
    let wrapped = Some(WrappedKey { key: key.clone(), wrapped: vec![0x5a; 24] });
    let dep = BoringDep::new(0, &no_deps());
    let image =
        build_image(&slot(1), 3000, &dep, false, TlvGen::new_enc_kw(), &no_keys(), &wrapped, 4, 0xff)
            .unwrap();
    let plain = &image.plain;
    let cipher = image.cipher.as_ref().unwrap();
    assert_eq!(plain.len(), cipher.len());
    assert_eq!(plain[..32], cipher[..32]);
    assert_eq!(&plain[16..20], &[4, 0, 0, 0]);
    assert_ne!(plain[32..3032], cipher[32..3032]);
    assert_eq!(plain[3032..], cipher[3032..]);
    let mut decrypted = cipher[32..3032].to_vec();
    let mut aes = aes_ctr::Aes128Ctr::new_var(&key, &[0u8; 16]).unwrap();
    aes.apply_keystream(&mut decrypted);
    assert_eq!(decrypted, plain[32..3032]);
    // The manifest is over the plain image, and carries the wrapped key.
    assert_eq!(&plain[3040..3072], &sha256(&plain[..3032])[..]);
    assert_eq!(&plain[3072..3076], &[0x31, 0, 24, 0]);
    assert_eq!(&plain[3076..3100], &[0x5a; 24]);
    // Without the key there is no image.
    assert_eq!(
        build_image(&slot(1), 3000, &dep, false, TlvGen::new_enc_kw(), &no_keys(), &None, 4, 0xff)
            .err(),
        Some(Abort::NoWrappedKey)
    );
    let short = Some(WrappedKey { key: vec![1; 15], wrapped: vec![0x5a; 24] });
    assert_eq!(
        build_image(&slot(1), 3000, &dep, false, TlvGen::new_enc_kw(), &no_keys(), &short, 4, 0xff)
            .err(),
        Some(Abort::Encryption)
    );
    // A generator that wraps the key itself draws one; without the public key
    // it cannot wrap it.
    assert_eq!(
        build_image(&slot(1), 3000, &dep, false, TlvGen::new_ecies_p256(), &no_keys(), &None, 4, 0xff)
            .err(),
        Some(Abort::Manifest(TlvError::BadPem))
    );
}

#[test]
fn device_access() {
    let mut flash = one_device(4, 0xff);
    assert_eq!(device_params(&flash, 0), Ok((4, 0xff)));
    assert_eq!(device_params(&flash, 1), Err(Abort::NoDevice));
    assert_eq!(read_at(&flash, 0, 8, 4), Ok(vec![0xff; 4]));
    assert_eq!(read_at(&flash, 0, 64 * 4096 - 3, 4), Err(Abort::OutOfBounds));
    assert_eq!(read_at(&flash, 9, 0, 4), Err(Abort::NoDevice));
    assert_eq!(write_at(&mut flash, 0, 8, &[1, 2, 3, 4]), Ok(()));
    assert_eq!(read_at(&flash, 0, 4, 12), Ok(vec![0xff, 0xff, 0xff, 0xff, 1, 2, 3, 4, 0xff, 0xff, 0xff, 0xff]));
    assert_eq!(write_at(&mut flash, 0, 8, &[1, 2, 3, 4]), Err(Abort::Fault(WriteFault::Unerased(8))));
    assert_eq!(write_at(&mut flash, 0, 2, &[1, 2, 3, 4]), Err(Abort::Fault(WriteFault::MisalignedAddress)));
    assert_eq!(write_at(&mut flash, 0, 4, &[1, 2]), Err(Abort::Fault(WriteFault::MisalignedLength)));
    assert_eq!(write_at(&mut flash, 0, 64 * 4096, &[1, 2, 3, 4]), Err(Abort::Fault(WriteFault::OutsideDevice)));
    assert_eq!(write_at(&mut flash, 7, 0, &[]), Err(Abort::NoDevice));
    flash.get_mut(&0).unwrap().add_bad_region(16, 16, 0x100_0000).unwrap();
    assert_eq!(write_at(&mut flash, 0, 16, &[0; 4]), Err(Abort::SimulatedFail));
    assert_eq!(erase_at(&mut flash, 0, 0, 4096), Ok(()));
    assert_eq!(read_at(&flash, 0, 8, 4), Ok(vec![0xff; 4]));
    assert_eq!(erase_at(&mut flash, 0, 0, 4095), Err(Abort::OutOfBounds));
    assert_eq!(erase_at(&mut flash, 3, 0, 4096), Err(Abort::NoDevice));
    assert!(same_bytes(&[1, 2, 3], &[1, 2, 3]));
    assert!(!same_bytes(&[1, 2, 3], &[1, 2, 4]));
    assert!(!same_bytes(&[1, 2, 3], &[1, 2]));
    assert!(same_bytes(&[], &[]));
}

#[test]
fn images_are_stored_in_the_order_of_their_slot() {
    let plain = vec![1u8; 64];
    let cipher = vec![2u8; 64];
    let both = ImageData { plain: plain.clone(), cipher: Some(cipher.clone()) };
    let only = ImageData { plain: plain.clone(), cipher: None };

    // Primary slot: the plain image stays.
    let mut flash = one_device(1, 0xff);
    let stored = store_image(&mut flash, &slot(0), &both).unwrap();
    assert_eq!(stored, both);
    assert_eq!(read_at(&flash, 0, slot(0).base_off, 64), Ok(plain.clone()));
    // Secondary slot: the encrypted image stays.
    let stored = store_image(&mut flash, &slot(1), &both).unwrap();
    assert_eq!(stored, both);
    assert_eq!(read_at(&flash, 0, slot(1).base_off, 64), Ok(cipher.clone()));
    // Without an encrypted form the image is written once.
    let mut flash = one_device(1, 0x00);
    assert_eq!(store_image(&mut flash, &slot(1), &only).unwrap(), only);
    assert_eq!(read_at(&flash, 0, slot(1).base_off, 64), Ok(plain.clone()));
    assert_eq!(
        store_image(&mut flash, &slot(1), &only).err(),
        Some(Abort::Fault(WriteFault::Unerased(slot(1).base_off)))
    );
    let gone = SlotInfo { dev_id: 4, ..slot(0) };
    assert_eq!(store_image(&mut flash, &gone, &only).err(), Some(Abort::NoDevice));
    // A slot that is not made of whole sectors cannot be erased between the
    // two writes.
    let odd = SlotInfo { len: 100, ..slot(0) };
    let mut flash = one_device(1, 0xff);
    assert_eq!(store_image(&mut flash, &odd, &both).err(), Some(Abort::OutOfBounds));
}

#[test]
fn installed_image_is_found_again() {
    let info = info(0, 1);
    let mut flash = one_device(2, 0xff);
    let dep = BoringDep::new(0, &no_deps());
    let primary = install_image(&mut flash, &slot(0), 5000, &dep, false, &info, &no_keys(), &None).unwrap();
    let upgrade = install_image(&mut flash, &slot(1), 6000, &dep, false, &info, &no_keys(), &None).unwrap();
    assert_eq!(primary.plain.len(), 32 + 5000 + 40);
    assert_eq!(read_at(&flash, 0, slot(0).base_off, primary.plain.len()), Ok(primary.plain.clone()));
    assert_eq!(verify_image(&flash, &slot(0), &primary, &info), Ok(true));
    assert_eq!(verify_image(&flash, &slot(1), &upgrade, &info), Ok(true));
    assert_eq!(verify_image(&flash, &slot(0), &upgrade, &info), Ok(false));
    assert_eq!(verify_image(&flash, &slot(1), &primary, &info), Ok(false));
    assert_eq!(verify_image(&flash, &slot(0), &install_no_image(), &info), Ok(true));
    let gone = SlotInfo { dev_id: 4, ..slot(0) };
    assert_eq!(verify_image(&flash, &gone, &primary, &info), Err(Abort::NoDevice));
    let far = SlotInfo { base_off: 64 * 4096 - 10, ..slot(0) };
    assert_eq!(verify_image(&flash, &far, &primary, &info), Err(Abort::OutOfBounds));
    assert_eq!(install_image(&mut flash, &gone, 5000, &dep, false, &info, &no_keys(), &None).err(), Some(Abort::NoDevice));
    // For a bootloader that encrypts, the upgrade slot is expected to hold the
    // encrypted form.
    let enc = self::info(Caps::EncKw.mask(), 1);
    let both = ImageData { plain: primary.plain.clone(), cipher: Some(upgrade.plain.clone()) };
    assert_eq!(verify_image(&flash, &slot(0), &both, &enc), Ok(true));
    assert_eq!(verify_image(&flash, &slot(1), &both, &enc), Ok(true));
    assert_eq!(both.find(0, &enc), &primary.plain);
    assert_eq!(both.find(1, &enc), &upgrade.plain);
    assert_eq!(both.find(1, &info), &primary.plain);
}

#[test]
fn trailer_marks() {
    let info = info(0, 1);
    for (align, erased) in [(1usize, 0xffu8), (2, 0xff), (4, 0x00), (8, 0xff)] {
        let mut flash = one_device(align, erased);
        let s = slot(0);
        let unset = boot_flag_unset();
        assert_eq!(verify_trailer(&flash, &s, boot_magic_unset(), unset, unset, &info), Ok(true));
        assert_eq!(verify_trailer(&flash, &s, boot_magic_good(), None, None, &info), Ok(false));
        assert_eq!(verify_trailer(&flash, &s, None, boot_flag_set(), None, &info), Ok(false));
        assert_eq!(verify_trailer(&flash, &s, None, None, boot_flag_set(), &info), Ok(false));
        assert_eq!(verify_trailer(&flash, &s, None, None, None, &info), Ok(true));
        // A value that is neither set nor unset expects nothing.
        assert_eq!(verify_trailer(&flash, &s, Some(2), Some(2), Some(0), &info), Ok(true));

        assert_eq!(mark_upgrade(&mut flash, &s, &info), Ok(()));
        assert_eq!(read_at(&flash, 0, s.base_off + s.len - 16, 16), Ok(MAGIC.to_vec()));
        assert_eq!(verify_trailer(&flash, &s, boot_magic_good(), unset, unset, &info), Ok(true));
        assert_eq!(verify_trailer(&flash, &s, boot_magic_unset(), None, None, &info), Ok(false));
        assert!(matches!(mark_upgrade(&mut flash, &s, &info), Err(Abort::Fault(_))));

        assert_eq!(mark_permanent_upgrade(&mut flash, &s, &info), Ok(()));
        let mut want = vec![erased; align];
        want[0] = 1;
        assert_eq!(read_at(&flash, 0, s.trailer_off + 24, align), Ok(want));
        assert_eq!(verify_trailer(&flash, &s, boot_magic_good(), boot_flag_set(), unset, &info), Ok(true));
        assert_eq!(verify_trailer(&flash, &s, None, unset, None, &info), Ok(false));
        // Copy-done is the byte eight before image-ok.
        flash.get_mut(&0).unwrap().write(s.trailer_off + 16, &want_flag(align, erased)).unwrap();
        assert_eq!(
            verify_trailer(&flash, &s, boot_magic_good(), boot_flag_set(), boot_flag_set(), &info),
            Ok(true)
        );
    }
    assert_eq!(magic_bytes(), MAGIC.to_vec());
    assert_eq!(boot_magic_good(), Some(1));
    assert_eq!(boot_magic_unset(), Some(3));
}

fn want_flag(align: usize, erased: u8) -> Vec<u8> {
    let mut flag = vec![erased; align];
    flag[0] = 1;
    flag
}

#[test]
fn trailer_marks_on_odd_devices() {
    let info = info(0, 1);
    // With an overwriting bootloader only the magic counts.
    let over = self::info(Caps::OverwriteUpgrade.mask(), 1);
    let mut flash = one_device(1, 0xff);
    assert_eq!(verify_trailer(&flash, &slot(0), boot_magic_good(), boot_flag_set(), None, &over), Ok(true));
    assert_eq!(mark_permanent_upgrade(&mut flash, &slot(0), &over), Ok(()));
    assert_eq!(read_at(&flash, 0, slot(0).trailer_off + 24, 1), Ok(vec![0xff]));
    let gone = SlotInfo { dev_id: 4, ..slot(0) };
    assert_eq!(verify_trailer(&flash, &gone, None, None, None, &over), Ok(true));
    assert_eq!(verify_trailer(&flash, &gone, None, None, None, &info), Err(Abort::NoDevice));
    assert_eq!(mark_upgrade(&mut flash, &gone, &info), Err(Abort::NoDevice));
    assert_eq!(mark_permanent_upgrade(&mut flash, &gone, &info), Err(Abort::NoDevice));
    let far = SlotInfo { trailer_off: 64 * 4096 - 20, ..slot(0) };
    assert_eq!(verify_trailer(&flash, &far, None, None, None, &info), Err(Abort::OutOfBounds));
    let beyond = SlotInfo { trailer_off: usize::MAX - 3, ..slot(0) };
    assert_eq!(verify_trailer(&flash, &beyond, None, None, None, &info), Err(Abort::OutOfBounds));
    assert_eq!(mark_upgrade(&mut flash, &beyond, &info), Err(Abort::OutOfBounds));
    // A write unit larger than the magic: the magic ends the unit.
    let mut wide = SimMultiFlash::new();
    wide.insert(0, SimFlash::new(vec![4096; 64], 32, 0xff));
    assert_eq!(mark_upgrade(&mut wide, &slot(0), &info), Ok(()));
    let mut want = vec![0xffu8; 16];
    want.extend_from_slice(&MAGIC);
    assert_eq!(read_at(&wide, 0, slot(0).base_off + slot(0).len - 32, 32), Ok(want));
    assert_eq!(mark_permanent_upgrade(&mut wide, &slot(0), &info), Err(Abort::Alignment));
    let mut wider = SimMultiFlash::new();
    wider.insert(0, SimFlash::new(vec![4096; 64], 64, 0xff));
    assert_eq!(mark_upgrade(&mut wider, &slot(0), &info), Ok(()));
    assert_eq!(read_at(&wider, 0, slot(0).base_off + slot(0).len - 16, 16), Ok(MAGIC.to_vec()));
    // Where the magic does not end a write unit it cannot be written.
    let shifted = SlotInfo { trailer_off: slot(1).trailer_off - 8, ..slot(1) };
    assert_eq!(mark_upgrade(&mut wider, &shifted, &info), Err(Abort::Alignment));
    assert_eq!(mark_upgrade(&mut one_device(1, 0xff), &shifted, &info), Ok(()));
}

#[test]
fn partition_table_layout() {
    let made = make_device(DeviceName::K64f, 8, 0xff);
    let areas = made.areadesc.iter_areas();
    assert_eq!(listed_devices(areas), vec![0]);
    let table = device_table(areas, 0).unwrap();
    let mut want = b"mcuboot\0".to_vec();
    want.extend_from_slice(&4u32.to_le_bytes());
    for (id, off, size) in [(0u32, 0u32, 0u32), (1, 0x20000, 0x20000), (2, 0x40000, 0x20000), (3, 0x60000, 0x1000)] {
        want.extend_from_slice(&id.to_le_bytes());
        want.extend_from_slice(&off.to_le_bytes());
        want.extend_from_slice(&size.to_le_bytes());
        want.extend_from_slice(&0u32.to_le_bytes());
    }
    assert_eq!(table, want);
    assert_eq!(device_table(areas, 1), Some(b"mcuboot\0\0\0\0\0".to_vec()));

    let mut flash = made.flash;
    assert_eq!(install_ptable(&mut flash, &made.areadesc), Ok(()));
    assert_eq!(want.len(), 76);
    assert_eq!(read_at(&flash, 0, 0, want.len()), Ok(want.clone()));
    // Padded with zeros to the alignment of eight.
    assert_eq!(read_at(&flash, 0, 76, 8), Ok(vec![0, 0, 0, 0, 0xff, 0xff, 0xff, 0xff]));
    // Written twice, the table hits programmed bytes.
    assert!(matches!(install_ptable(&mut flash, &made.areadesc), Err(Abort::Fault(_))));

    // Padded with zeros to the alignment.
    let mut desc = AreaDesc::new();
    desc.add_simple_image(0x1000, 0x1000, FlashId::Image0, 0);
    let mut flash = SimMultiFlash::new();
    flash.insert(0, SimFlash::new(vec![4096; 4], 16, 0xff));
    assert_eq!(install_table(&mut flash, desc.iter_areas(), 0), Ok(true));
    let mut want = b"mcuboot\0".to_vec();
    want.extend_from_slice(&[1, 0, 0, 0, 1, 0, 0, 0, 0, 0x10, 0, 0, 0, 0x10, 0, 0, 0, 0, 0, 0]);
    want.extend_from_slice(&[0; 4]);
    assert_eq!(read_at(&flash, 0, 0, 32), Ok(want));
}

#[test]
fn partition_table_gives_way_to_a_partition() {
    // On the second device a partition begins at offset zero.
    let made = make_device(DeviceName::Nrf52840SpiFlash, 1, 0xff);
    let areas = made.areadesc.iter_areas();
    assert_eq!(listed_devices(areas), vec![0, 1]);
    assert!(device_table(areas, 0).is_some());
    assert_eq!(device_table(areas, 1), None);
    let mut flash = made.flash;
    assert_eq!(install_ptable(&mut flash, &made.areadesc), Ok(()));
    assert_eq!(read_at(&flash, 0, 0, 8), Ok(b"mcuboot\0".to_vec()));
    assert_eq!(read_at(&flash, 1, 0, 8), Ok(vec![0xff; 8]));
    assert_eq!(install_table(&mut flash, areas, 1), Ok(false));
    // Where the first device gives way, the devices after it still get
    // their tables.
    let mut desc = AreaDesc::new();
    desc.add_simple_image(0, 0x1000, FlashId::Image0, 5);
    desc.add_simple_image(0x1000, 0x1000, FlashId::Image1, 6);
    let mut flash = SimMultiFlash::new();
    flash.insert(5, SimFlash::new(vec![4096; 4], 1, 0xff));
    flash.insert(6, SimFlash::new(vec![4096; 4], 1, 0xff));
    assert_eq!(listed_devices(desc.iter_areas()), vec![5, 6]);
    assert_eq!(install_ptable(&mut flash, &desc), Ok(()));
    assert_eq!(read_at(&flash, 5, 0, 8), Ok(vec![0xff; 8]));
    let mut want = b"mcuboot\0".to_vec();
    want.extend_from_slice(&[1, 0, 0, 0, 2, 0, 0, 0, 0, 0x10, 0, 0, 0, 0x10, 0, 0, 0, 0, 0, 0]);
    want.extend_from_slice(&[0xff; 4]);
    assert_eq!(read_at(&flash, 6, 0, 32), Ok(want));
    assert!(matches!(install_table(&mut flash, desc.iter_areas(), 6), Err(Abort::Fault(_))));
    // A device that the table names but that is not there.
    flash.remove(&6);
    assert_eq!(install_table(&mut flash, desc.iter_areas(), 6), Err(Abort::NoDevice));
}

#[test]
fn known_devices() {
    assert_eq!(all_devices().len(), 7);
    assert_eq!(test_alignments(), vec![1, 2, 4, 8]);
    let names: Vec<&str> = all_devices().iter().map(|d| d.name()).collect();
    assert_eq!(
        names,
        vec![
            "stm32f4",
            "k64f",
            "k64fbig",
            "k64fmulti",
            "nrf52840",
            "Nrf52840SpiFlash",
            "Nrf52840UnequalSlots"
        ]
    );
    let configs = ImagesBuilder::each_device();
    assert_eq!(configs.len(), 56);
    assert_eq!(configs[0], (DeviceName::Stm32f4, 1, 0));
    assert_eq!(configs[1], (DeviceName::Stm32f4, 1, 0xff));
    assert_eq!(configs[2], (DeviceName::Stm32f4, 2, 0));
    assert_eq!(configs[7], (DeviceName::Stm32f4, 8, 0xff));
    assert_eq!(configs[8], (DeviceName::K64f, 1, 0));
    assert_eq!(configs[55], (DeviceName::Nrf52840UnequalSlots, 8, 0xff));

    let sizes = |device| {
        let made = make_device(device, 4, 0x00);
        let mut out: Vec<(u8, usize, usize, u8)> =
            made.flash.iter().map(|(id, dev)| (*id, dev.device_size(), dev.align(), dev.erased_val())).collect();
        out.sort();
        let slots: Vec<Option<(usize, usize, u8)>> = [
            FlashId::Image0,
            FlashId::Image1,
            FlashId::ImageScratch,
            FlashId::Image2,
            FlashId::Image3,
        ]
        .iter()
        .map(|id| made.areadesc.find(*id))
        .collect();
        (out, slots, made.unsupported, made.areadesc.get_c().slots[1].num_areas)
    };
    assert_eq!(
        sizes(DeviceName::Stm32f4),
        (
            vec![(0, 0x80000, 4, 0)],
            vec![Some((0x20000, 0x20000, 0)), Some((0x40000, 0x20000, 0)), Some((0x60000, 0x20000, 0)), None, None],
            vec![Caps::SwapUsingMove],
            1
        )
    );
    assert_eq!(
        sizes(DeviceName::K64f),
        (
            vec![(0, 0x80000, 4, 0)],
            vec![Some((0x20000, 0x20000, 0)), Some((0x40000, 0x20000, 0)), Some((0x60000, 0x1000, 0)), None, None],
            vec![],
            32
        )
    );
    assert_eq!(
        sizes(DeviceName::K64fBig),
        (
            vec![(0, 0x80000, 4, 0)],
            vec![Some((0x20000, 0x20000, 0)), Some((0x40000, 0x20000, 0)), Some((0x60000, 0x20000, 0)), None, None],
            vec![Caps::SwapUsingMove],
            1
        )
    );
    assert_eq!(
        sizes(DeviceName::K64fMulti),
        (
            vec![(0, 0x100000, 4, 0)],
            vec![
                Some((0x20000, 0x20000, 0)),
                Some((0x40000, 0x20000, 0)),
                Some((0x60000, 0x1000, 0)),
                Some((0x80000, 0x20000, 0)),
                Some((0xa0000, 0x20000, 0))
            ],
            vec![],
            32
        )
    );
    assert_eq!(
        sizes(DeviceName::Nrf52840),
        (
            vec![(0, 0x80000, 4, 0)],
            vec![Some((0x8000, 0x34000, 0)), Some((0x3c000, 0x34000, 0)), Some((0x70000, 0xd000, 0)), None, None],
            vec![],
            52
        )
    );
    assert_eq!(
        sizes(DeviceName::Nrf52840SpiFlash),
        (
            vec![(0, 0x80000, 4, 0), (1, 0x80000, 4, 0)],
            vec![Some((0x8000, 0x68000, 0)), Some((0, 0x68000, 1)), Some((0x68000, 0x18000, 1)), None, None],
            vec![Caps::SwapUsingMove],
            104
        )
    );
    assert_eq!(
        sizes(DeviceName::Nrf52840UnequalSlots),
        (
            vec![(0, 0x80000, 4, 0)],
            vec![Some((0x8000, 0x3c000, 0)), Some((0x44000, 0x3b000, 0)), None, None, None],
            vec![Caps::SwapUsingScratch, Caps::OverwriteUpgrade],
            60
        )
    );
    let made = make_device(DeviceName::Nrf52840SpiFlash, 1, 0xff);
    assert_eq!(made.areadesc.get_c().slots[2].areas[0].size, 8192);
}

#[test]
fn builder_places_the_slots() {
    let builder = ImagesBuilder::new(DeviceName::K64f, 1, 0xff, &info(0, 1)).unwrap();
    assert_eq!(builder.num_images(), 1);
    assert_eq!(
        builder.slots[0],
        [
            SlotInfo { base_off: 0x20000, trailer_off: 0x40000 - 48, len: 0x20000, index: 0, dev_id: 0 },
            SlotInfo { base_off: 0x40000, trailer_off: 0x60000 - 48, len: 0x20000, index: 1, dev_id: 0 },
        ]
    );
    let builder = ImagesBuilder::new(DeviceName::K64fMulti, 1, 0xff, &info(0, 2)).unwrap();
    assert_eq!(builder.num_images(), 2);
    assert_eq!(builder.slots[1][0].base_off, 0x80000);
    assert_eq!(builder.slots[1][1].base_off, 0xa0000);
    assert_eq!(builder.slots[1][1].index, 1);
    let builder = ImagesBuilder::new(DeviceName::Nrf52840SpiFlash, 1, 0xff, &info(0, 1)).unwrap();
    assert_eq!(builder.slots[0][1].dev_id, 1);
    assert_eq!(builder.slots[0][1].trailer_off, 0x68000 - 48);
    assert_eq!(ImagesBuilder::new(DeviceName::K64f, 1, 0xff, &info(0, 0)).unwrap().num_images(), 0);

    let err = |device, info: BootInfo| ImagesBuilder::new(device, 1, 0xff, &info).err();
    assert_eq!(err(DeviceName::K64f, info(0, 2)), Some(BuildError::InsufficientPartitions));
    assert_eq!(
        err(DeviceName::Stm32f4, info(Caps::SwapUsingMove.mask(), 1)),
        Some(BuildError::Unsupported(Caps::SwapUsingMove))
    );
    assert_eq!(err(DeviceName::Stm32f4, info(Caps::SwapUsingScratch.mask(), 1)), None);
    let both = Caps::SwapUsingScratch.mask() | Caps::OverwriteUpgrade.mask();
    assert_eq!(
        err(DeviceName::Nrf52840UnequalSlots, info(both, 1)),
        Some(BuildError::Unsupported(Caps::SwapUsingScratch))
    );
    assert_eq!(
        err(DeviceName::Nrf52840UnequalSlots, info(Caps::OverwriteUpgrade.mask(), 1)),
        Some(BuildError::Unsupported(Caps::OverwriteUpgrade))
    );
    // What is unsupported is reported before what is missing.
    assert_eq!(
        err(DeviceName::Stm32f4, info(Caps::SwapUsingMove.mask(), 2)),
        Some(BuildError::Unsupported(Caps::SwapUsingMove))
    );

    let made = make_device(DeviceName::K64f, 1, 0xff);
    let scratch = place_slot(&made.areadesc, FlashId::ImageScratch, 1, &info(0, 1)).unwrap();
    assert_eq!(scratch.trailer_off, 0x61000 - 48);
    let big = BootInfo { magic_sz: 0x1000, max_align: 0x400, ..info(0, 1) };
    assert_eq!(place_slot(&made.areadesc, FlashId::ImageScratch, 1, &big).unwrap().trailer_off, 0x5f000);
    let mut tiny = AreaDesc::new();
    tiny.add_simple_image(0, 40, FlashId::Image0, 0);
    assert_eq!(place_slot(&tiny, FlashId::Image0, 0, &info(0, 1)), Err(BuildError::BadSlot));
    assert_eq!(place_slot(&tiny, FlashId::Image1, 0, &info(0, 1)), Err(BuildError::InsufficientPartitions));
}

#[test]
fn flash_context_serves_the_bootloader() {
    let mut ctx = FlashContext::new();
    assert_eq!(sim_flash_erase(&mut ctx, 0, 0, 4096), -19);
    let mut buf = [0u8; 4];
    assert_eq!(sim_flash_read(&ctx, 0, 0, &mut buf), -19);
    assert_eq!(sim_flash_write(&mut ctx, 0, 0, &[1, 2]), -19);

    set_flash(&mut ctx, 0, SimFlash::new(vec![4096; 4], 2, 0xff));
    set_flash(&mut ctx, 3, SimFlash::new(vec![4096; 4], 8, 0x00));
    assert_eq!(sim_flash_align(&ctx, 0), 2);
    assert_eq!(sim_flash_erased_val(&ctx, 0), 0xff);
    assert_eq!(sim_flash_align(&ctx, 3), 8);
    assert_eq!(sim_flash_erased_val(&ctx, 3), 0);

    assert_eq!(sim_flash_write(&mut ctx, 0, 4, &[1, 2]), 0);
    assert_eq!(sim_flash_read(&ctx, 0, 2, &mut buf), 0);
    assert_eq!(buf, [0xff, 0xff, 1, 2]);
    assert_eq!(sim_flash_read(&ctx, 3, 2, &mut buf), 0);
    assert_eq!(buf, [0; 4]);
    assert_eq!(sim_flash_read(&ctx, 0, 4 * 4096 - 2, &mut buf), -1);
    assert_eq!(buf, [0; 4]);
    assert_eq!(sim_flash_erase(&mut ctx, 0, 0, 100), -1);
    assert_eq!(sim_flash_erase(&mut ctx, 0, 0, 4096), 0);
    assert_eq!(sim_flash_read(&ctx, 0, 2, &mut buf), 0);
    assert_eq!(buf, [0xff; 4]);
    ctx.flash_map.get_mut(&0).unwrap().add_bad_region(8, 8, 0x100_0000).unwrap();
    assert_eq!(sim_flash_write(&mut ctx, 0, 8, &[1, 2]), -1);

    let dev = clear_flash(&mut ctx, 0).unwrap();
    assert_eq!(dev.device_size(), 4 * 4096);
    assert!(clear_flash(&mut ctx, 0).is_none());
    assert_eq!(sim_flash_erase(&mut ctx, 0, 0, 4096), -19);
    // The parameters stay known.
    assert_eq!(sim_flash_align(&ctx, 0), 2);

    assert!(sim_get_flash_areas(&ctx).is_none());
    let made = make_device(DeviceName::K64f, 1, 0xff);
    sim_set_flash_areas(&mut ctx, made.areadesc.get_c());
    assert_eq!(sim_get_flash_areas(&ctx).as_ref().unwrap().num_slots, 4);
    sim_reset_flash_areas(&mut ctx);
    assert!(sim_get_flash_areas(&ctx).is_none());

    assert_eq!(map_err(&Ok(())), 0);
    assert_eq!(map_err(&Err(FlashError::OutOfBounds("x".to_string()))), -1);
    assert_eq!(map_err(&Err(FlashError::SimulatedFail("x".to_string()))), -1);
    let d = FlashContext::default();
    assert!(d.flash_map.is_empty() && d.flash_params.is_empty() && d.flash_areas.ptr.is_none());
}

#[test]
fn boot_context_and_outcome() {
    let limited = BootRequest { counter: Some(17), catch_asserts: true };
    let free = BootRequest { counter: None, catch_asserts: false };
    assert_eq!(
        boot_context_for(&limited),
        CSimContext { flash_counter: 17, jumped: 0, c_asserts: 0, c_catch_asserts: 1 }
    );
    assert_eq!(
        boot_context_for(&free),
        CSimContext { flash_counter: 0, jumped: 0, c_asserts: 0, c_catch_asserts: 0 }
    );
    let after = CSimContext { flash_counter: -40, jumped: 0, c_asserts: 2, c_catch_asserts: 1 };
    assert_eq!(boot_go(&limited, 0, &after), BootOutcome { result: 0, asserts: 2, counter: -40 });
    assert_eq!(
        boot_go(&free, -0x13579, &after),
        BootOutcome { result: -0x13579, asserts: 2, counter: 0 }
    );
}

#[test]
fn overlapping_slots_are_noticed() {
    let info = info(0, 1);
    let builder = ImagesBuilder::new(DeviceName::K64f, 1, 0xff, &info).unwrap();
    let mut images = builder.make_no_upgrade_image(&no_deps(), &info, &no_keys(), &None).unwrap();
    assert_eq!(images.confirm(&info), Ok(()));
    // Something lies over the image in the primary slot.
    let slot = images.images[0].slots[0];
    let dev = images.flash.get_mut(&0).unwrap();
    dev.erase(slot.base_off, 4096).unwrap();
    assert_eq!(images.confirm(&info), Err(Abort::Overlap));
    // A device that is gone.
    images.flash.clear();
    assert_eq!(images.confirm(&info), Err(Abort::NoDevice));
}

#[test]
fn builder_makes_the_devices() {
    let made = ImagesBuilder::make_device(DeviceName::Nrf52840, 2, 0x00);
    assert_eq!(made.flash.len(), 1);
    assert_eq!(made.flash[&0].device_size(), 128 * 4096);
    assert_eq!(made.flash[&0].align(), 2);
    assert_eq!(made.flash[&0].erased_val(), 0);
    assert_eq!(made.areadesc.find(FlashId::ImageScratch), Some((0x70000, 0xd000, 0)));
    assert!(made.unsupported.is_empty());
}

#[test]
fn banner_names_the_slot_and_the_version() {
    let place = SlotInfo { base_off: 0x3c000, trailer_off: 458704, len: 212992, index: 1, dev_id: 10 };
    let version = ImageVersion { major: 21, minor: 0, revision: 1, build_num: 4000000000 };
    let text = bootsim::image::banner(&place, &version);
    assert_eq!(
        text,
        format!("offset: {:#x}, dev_id: {:#x}, slot_info: {:?}\nversion: {:?}\n", 0x3c000, 10, place, version)
    );
    assert_eq!(
        text,
        "offset: 0x3c000, dev_id: 0xa, slot_info: SlotInfo { base_off: 245760, trailer_off: 458704, \
         len: 212992, index: 1, dev_id: 10 }\nversion: ImageVersion { major: 21, minor: 0, \
         revision: 1, build_num: 4000000000 }\n"
    );
}
