use bootsim::flash::{Flash, FlashError, Sector, SimFlash, WriteFault, RATE_ONE};

fn sectors_of(flash: &dyn Flash) -> Vec<Sector> {
    let mut out = Vec::new();
    let mut iter = flash.sector_iter();
    while let Some(sector) = iter.next() {
        out.push(sector);
    }
    out
}

fn is_bounds<T>(result: &Result<T, FlashError>) -> bool {
    matches!(result, Err(FlashError::OutOfBounds(_)))
}

fn test_device(flash: &mut dyn Flash, erased_val: u8) {
    let sectors = sectors_of(&*flash);

    flash.erase(0, sectors[0].size).unwrap();
    let flash_size = flash.device_size();
    flash.erase(0, flash_size).unwrap();
    assert!(is_bounds(&flash.erase(0, sectors[0].size - 1)));

    // Verify that write and erase do something.
    flash.write(0, &[0x55]).unwrap();
    let mut buf = [0xAA; 4];
    flash.read(0, &mut buf).unwrap();
    assert_eq!(buf, [0x55, erased_val, erased_val, erased_val]);

    flash.erase(0, sectors[0].size).unwrap();
    flash.read(0, &mut buf).unwrap();
    assert_eq!(buf, [erased_val; 4]);

    // Program the first and last byte of each sector, verify that has been done, and then
    // erase to verify the erase boundaries.
    for sector in &sectors {
        let byte = [(sector.num & 127) as u8];
        flash.write(sector.base, &byte).unwrap();
        flash.write(sector.base + sector.size - 1, &byte).unwrap();
    }

    // Verify the above
    let mut buf = Vec::new();
    for sector in &sectors {
        let byte = (sector.num & 127) as u8;
        buf.resize(sector.size, 0);
        flash.read(sector.base, &mut buf).unwrap();
        assert_eq!(buf.first(), Some(&byte));
        assert_eq!(buf.last(), Some(&byte));
        assert!(buf[1..buf.len() - 1].iter().all(|&x| x == erased_val));
    }
}

#[test]
fn test_flash() {
    for &erased_val in &[0, 0xff] {
        // NXP-style, uniform sectors.
        let mut f1 = SimFlash::new(vec![4096usize; 256], 1, erased_val);
        test_device(&mut f1, erased_val);

        // STM style, non-uniform sectors.
        let mut f2 = SimFlash::new(
            vec![16 * 1024, 16 * 1024, 16 * 1024, 64 * 1024, 128 * 1024, 128 * 1024, 128 * 1024],
            1,
            erased_val,
        );
        test_device(&mut f2, erased_val);
    }
}

#[test]
fn erase_then_read_gives_erased_value() {
    let mut flash = SimFlash::new(vec![64, 128, 64], 4, 0xff);
    flash.write(64, &[1, 2, 3, 4, 5, 6, 7, 8]).unwrap();
    flash.erase(64, 128).unwrap();
    let mut buf = [0u8; 128];
    flash.read(64, &mut buf).unwrap();
    assert!(buf.iter().all(|&b| b == 0xff));
}

#[test]
fn write_then_read_gives_payload() {
    let mut flash = SimFlash::new(vec![64, 128, 64], 4, 0x00);
    let payload = [9u8, 8, 7, 6, 5, 4, 3, 2];
    flash.write(72, &payload).unwrap();
    let mut buf = [0u8; 8];
    flash.read(72, &mut buf).unwrap();
    assert_eq!(buf, payload);
    // The bytes around the payload are untouched.
    let mut around = [1u8; 16];
    flash.read(68, &mut around).unwrap();
    assert_eq!(&around[..4], &[0, 0, 0, 0]);
    assert_eq!(&around[12..], &[0, 0, 0, 0]);
}

#[test]
fn second_write_is_a_fault_until_erased() {
    let mut flash = SimFlash::new(vec![64, 64], 1, 0xff);
    assert_eq!(flash.write_fault(10, 4), None);
    flash.write(10, &[1, 2, 3, 4]).unwrap();
    assert_eq!(flash.write_fault(10, 4), Some(WriteFault::Unerased(10)));
    assert_eq!(flash.write_fault(8, 4), Some(WriteFault::Unerased(10)));
    assert_eq!(flash.write_fault(13, 2), Some(WriteFault::Unerased(13)));
    assert_eq!(flash.write_fault(14, 2), None);
    flash.set_verify_writes(false);
    assert_eq!(flash.write_fault(10, 4), None);
    flash.write(10, &[5, 6, 7, 8]).unwrap();
    flash.set_verify_writes(true);
    flash.erase(0, 64).unwrap();
    assert_eq!(flash.write_fault(10, 4), None);
}

#[test]
fn write_faults_in_order() {
    let flash = SimFlash::new(vec![64, 64], 4, 0xff);
    assert_eq!(flash.write_fault(126, 4), Some(WriteFault::OutsideDevice));
    assert_eq!(flash.write_fault(usize::MAX, 2), Some(WriteFault::OutsideDevice));
    assert_eq!(flash.write_fault(2, 4), Some(WriteFault::MisalignedAddress));
    assert_eq!(flash.write_fault(4, 6), Some(WriteFault::MisalignedLength));
    assert_eq!(flash.write_fault(2, 6), Some(WriteFault::MisalignedAddress));
    assert_eq!(flash.write_fault(124, 4), None);
    assert_eq!(flash.write_fault(128, 0), None);
}

#[test]
fn erase_must_span_whole_sectors() {
    let mut flash = SimFlash::new(vec![16, 32, 16], 1, 0xff);
    let msg = |r: Result<(), FlashError>| match r {
        Err(FlashError::OutOfBounds(m)) => m,
        other => panic!("expected a bounds error, got {:?}", other),
    };
    assert_eq!(msg(flash.erase(64, 16)), "start");
    assert_eq!(msg(flash.erase(0, 0)), "end");
    assert_eq!(msg(flash.erase(0, 65)), "end");
    assert_eq!(msg(flash.erase(16, usize::MAX)), "end");
    assert_eq!(msg(flash.erase(1, 15)), "offset not at start of sector");
    assert_eq!(msg(flash.erase(16, 31)), "end not at start of sector");
    assert!(flash.erase(16, 32).is_ok());
    assert!(flash.erase(16, 48).is_ok());
    assert!(flash.erase(0, 64).is_ok());
    // An empty range between two sectors is a valid, empty erase.
    assert!(flash.erase(16, 0).is_ok());
}

#[test]
fn read_outside_device_is_refused() {
    let flash = SimFlash::new(vec![16, 16], 1, 0xff);
    let mut buf = [7u8; 8];
    let r = flash.read(28, &mut buf);
    assert!(is_bounds(&r));
    assert_eq!(buf, [7u8; 8]);
    assert_eq!(r.unwrap_err().message(), "Offset out of bounds: Read outside of device");
    assert!(flash.read(24, &mut buf).is_ok());
    assert!(is_bounds(&flash.read(usize::MAX, &mut buf)));
}

#[test]
fn bad_region_rates() {
    let mut flash = SimFlash::new(vec![64, 64], 1, 0xff);
    assert!(is_bounds(&flash.add_bad_region(0, 16, RATE_ONE + 1)));
    assert!(is_bounds(&flash.add_bad_region(0, 16, u32::MAX)));
    // A certain failure: every write that overlaps the region fails and
    // changes nothing.
    flash.add_bad_region(16, 16, RATE_ONE).unwrap();
    for _ in 0..50 {
        let r = flash.write(20, &[1, 2, 3]);
        assert!(matches!(r, Err(FlashError::SimulatedFail(_))));
    }
    let mut buf = [0u8; 3];
    flash.read(20, &mut buf).unwrap();
    assert_eq!(buf, [0xff; 3]);
    // So does a write that overlaps the region in part, at either end.
    for _ in 0..50 {
        assert!(matches!(flash.write(14, &[1, 2, 3, 4]), Err(FlashError::SimulatedFail(_))));
        assert!(matches!(flash.write(30, &[1, 2, 3, 4]), Err(FlashError::SimulatedFail(_))));
        assert!(matches!(flash.write(8, &[7; 40]), Err(FlashError::SimulatedFail(_))));
    }
    let mut all = [0u8; 64];
    flash.read(0, &mut all).unwrap();
    assert_eq!(all, [0xff; 64]);
    // A write next to the region is not affected.
    flash.write(12, &[1, 2, 3, 4]).unwrap();
    flash.write(32, &[5, 6]).unwrap();
    let mut next = [0u8; 6];
    flash.read(12, &mut next).unwrap();
    assert_eq!(next, [1, 2, 3, 4, 0xff, 0xff]);
    // A rate of zero never fails.
    flash.reset_bad_regions();
    flash.add_bad_region(34, 16, 0).unwrap();
    for i in 0..16 {
        flash.write(34 + i, &[0]).unwrap();
    }
    // After a reset the first region no longer applies.
    flash.write(20, &[1, 2, 3]).unwrap();
}

#[test]
fn simulated_failure_message() {
    let mut flash = SimFlash::new(vec![64, 64], 1, 0xff);
    flash.add_bad_region(16, 32, RATE_ONE).unwrap();
    let e = flash.write(16, &[1]).unwrap_err();
    assert_eq!(e.message(), "Write failed by chance: Ignoring write to 0x10-0x30");
}

#[test]
fn half_rate_fails_some_writes() {
    let mut flash = SimFlash::new(vec![4096], 1, 0xff);
    flash.add_bad_region(0, 4096, RATE_ONE / 2).unwrap();
    let mut failed = 0;
    let mut passed = 0;
    for i in 0..4096 {
        match flash.write(i, &[0]) {
            Ok(()) => passed += 1,
            Err(FlashError::SimulatedFail(_)) => failed += 1,
            Err(e) => panic!("unexpected {:?}", e),
        }
    }
    assert!(failed > 1000 && passed > 1000);
}

#[test]
fn clone_is_deep() {
    let mut flash = SimFlash::new(vec![16, 16], 1, 0xff);
    let copy = flash.clone();
    flash.write(0, &[1]).unwrap();
    let mut a = [0u8; 1];
    let mut b = [0u8; 1];
    flash.read(0, &mut a).unwrap();
    copy.read(0, &mut b).unwrap();
    assert_eq!(a, [1]);
    assert_eq!(b, [0xff]);
    assert_eq!(copy.align(), 1);
    assert_eq!(copy.erased_val(), 0xff);
    assert_eq!(copy.device_size(), 32);
}

#[test]
fn sector_iter_yields_each_sector() {
    let flash = SimFlash::new(vec![16, 0, 32], 1, 0);
    let sectors = sectors_of(&flash);
    assert_eq!(
        sectors,
        vec![
            Sector { num: 0, base: 0, size: 16 },
            Sector { num: 1, base: 16, size: 0 },
            Sector { num: 2, base: 16, size: 32 },
        ]
    );
    // The iterator can be restarted.
    assert_eq!(sectors_of(&flash).len(), 3);
    assert_eq!(flash.get_sector(15), Some((0, 15)));
    assert_eq!(flash.get_sector(16), Some((2, 0)));
    assert_eq!(flash.get_sector(48), None);
}
