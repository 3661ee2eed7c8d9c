use bootsim::caps::{BootInfo, Caps};
use bootsim::depends::{no_deps, rev_deps, BoringDep, DepTest, DepType, Depender, PairDep, UpgradeInfo};
use bootsim::image::ImageVersion;
use bootsim::ptest::{is_among, status_line, FeatureSet, Matrix};
use bootsim::text::{hex_char, hex_len, push_dec, push_hex, push_hex_padded};

fn version(major: u8, minor: u8, build_num: u32) -> ImageVersion {
    ImageVersion { major, minor, revision: 1, build_num }
}

#[test]
fn synthetic_versions() {
    assert_eq!(ImageVersion::new_synthetic(0, 0, 0), version(0, 0, 0));
    assert_eq!(ImageVersion::new_synthetic(1, 1, 0), version(21, 0, 1));
    assert_eq!(ImageVersion::new_synthetic(2, 3, 7), version(43, 7, 3));
    assert_eq!(ImageVersion::new_synthetic(12, 15, 1), version(255, 1, 15));
}

#[test]
fn versions_are_ordered_field_by_field() {
    let v = |major, minor, revision, build_num| ImageVersion { major, minor, revision, build_num };
    assert!(v(1, 9, 9, 9).is_before(&v(2, 0, 0, 0)));
    assert!(!v(2, 0, 0, 0).is_before(&v(1, 9, 9, 9)));
    assert!(v(1, 1, 9, 9).is_before(&v(1, 2, 0, 0)));
    assert!(v(1, 1, 1, 9).is_before(&v(1, 1, 2, 0)));
    assert!(v(1, 1, 1, 1).is_before(&v(1, 1, 1, 2)));
    assert!(!v(1, 1, 1, 1).is_before(&v(1, 1, 1, 1)));
    assert!(!v(1, 1, 1, 2).is_before(&v(1, 1, 1, 1)));
}

#[test]
fn boring_images_have_versions_and_no_dependencies() {
    let dep = BoringDep::new(0, &no_deps());
    assert_eq!(dep.my_version(0x20000, 0), version(0, 0, 0));
    assert_eq!(dep.my_version(0x40000, 1), version(1, 0, 1));
    assert_eq!(dep.my_deps(0, 0), vec![]);
    assert_eq!(dep.my_deps(0, 1), vec![]);
    assert_eq!(dep.other_id(), 0);
    // A downgrade swaps the versions of the two slots.
    let dep = BoringDep::new(1, &rev_deps());
    assert_eq!(dep.my_version(0, 0), version(21, 0, 1));
    assert_eq!(dep.my_version(0, 1), version(20, 0, 0));
}

fn pair(number: usize, kind: DepType) -> PairDep {
    let test = DepTest {
        depends: [kind, kind],
        upgrades: [UpgradeInfo::Upgraded, UpgradeInfo::Upgraded],
        downgrade: false,
    };
    PairDep::new(2, number, &test)
}

#[test]
fn pair_dependencies() {
    assert_eq!(pair(0, DepType::Correct).other_id(), 1);
    assert_eq!(pair(1, DepType::Correct).other_id(), 0);
    assert_eq!(pair(1, DepType::Correct).my_version(0, 1), version(21, 0, 1));
    // No dependencies in the primary slot.
    assert_eq!(pair(0, DepType::Correct).my_deps(0, 0), vec![]);
    assert_eq!(pair(0, DepType::NoUpgrade).my_deps(0, 0), vec![]);
    assert_eq!(pair(0, DepType::Nothing).my_deps(0, 1), vec![]);
    // Exactly the version of the other image's upgrade.
    assert_eq!(pair(0, DepType::Correct).my_deps(0, 1), vec![version(21, 0, 1)]);
    assert_eq!(pair(0, DepType::Correct).my_deps(0, 1), vec![pair(1, DepType::Nothing).my_version(0, 1)]);
    assert_eq!(pair(1, DepType::Correct).my_deps(0, 1), vec![version(1, 0, 1)]);
    // The version of the other image's primary.
    assert_eq!(pair(0, DepType::OldCorrect).my_deps(0, 1), vec![version(20, 0, 0)]);
    assert_eq!(pair(0, DepType::OldCorrect).my_deps(0, 1), vec![pair(1, DepType::Nothing).my_version(0, 0)]);
    // Something newer than the other image's upgrade.
    let newer = pair(0, DepType::Newer).my_deps(0, 1);
    assert_eq!(newer, vec![version(21, 1, 1)]);
    assert!(pair(1, DepType::Nothing).my_version(0, 1).is_before(&newer[0]));
}

#[test]
fn canned_tests() {
    let t = no_deps();
    assert_eq!(t.depends, [DepType::Nothing, DepType::Nothing]);
    assert_eq!(t.upgrades, [UpgradeInfo::Upgraded, UpgradeInfo::Upgraded]);
    assert!(!t.downgrade);
    let t = rev_deps();
    assert_eq!(t.depends, [DepType::Nothing, DepType::Nothing]);
    assert_eq!(t.upgrades, [UpgradeInfo::Held, UpgradeInfo::Held]);
    assert!(t.downgrade);
}

#[test]
fn capabilities_are_bits() {
    let all = [
        Caps::RSA2048,
        Caps::EcdsaP224,
        Caps::EcdsaP256,
        Caps::SwapUsingScratch,
        Caps::OverwriteUpgrade,
        Caps::EncRsa,
        Caps::EncKw,
        Caps::ValidatePrimarySlot,
        Caps::RSA3072,
        Caps::Ed25519,
        Caps::EncEc256,
        Caps::SwapUsingMove,
        Caps::DowngradePrevention,
        Caps::EncX25519,
        Caps::Bootstrap,
    ];
    for (i, cap) in all.iter().enumerate() {
        assert_eq!(cap.mask(), 1 << i);
        assert!(cap.present(1 << i));
        assert!(cap.present(0xffff_ffff));
        assert!(!cap.present(!(1u32 << i)));
        assert!(!cap.present(0));
    }
}

#[test]
fn boot_info_validity() {
    let info = BootInfo {
        caps: 0,
        num_images: 1,
        magic_sz: 16,
        max_align: 8,
        trailer_sz: 432,
        status_sz: 384,
    };
    assert!(info.is_wf());
    assert!(!info.is_swap_upgrade());
    assert!(!info.is_encrypted());
    assert!(!BootInfo { caps: Caps::EcdsaP224.mask(), ..info }.is_wf());
    assert!(!BootInfo { num_images: 3, ..info }.is_wf());
    assert!(!BootInfo { magic_sz: 0, max_align: 8, ..info }.is_wf());
    assert!(BootInfo { magic_sz: 1, max_align: 8, ..info }.is_wf());
    assert!(!BootInfo { max_align: 0x1001, ..info }.is_wf());
    assert!(BootInfo { caps: Caps::SwapUsingMove.mask(), ..info }.is_swap_upgrade());
    assert!(BootInfo { caps: Caps::SwapUsingScratch.mask(), ..info }.is_swap_upgrade());
    assert!(!BootInfo { caps: Caps::OverwriteUpgrade.mask(), ..info }.is_swap_upgrade());
    for cap in [Caps::EncRsa, Caps::EncKw, Caps::EncEc256, Caps::EncX25519] {
        assert!(BootInfo { caps: cap.mask(), ..info }.is_encrypted());
    }
    assert!(!BootInfo { caps: Caps::RSA2048.mask(), ..info }.is_encrypted());
}

#[test]
fn hexadecimal_text() {
    let hex = |v: usize| {
        let mut s = String::from(">");
        push_hex(&mut s, v);
        s
    };
    assert_eq!(hex(0), ">0");
    assert_eq!(hex(9), ">9");
    assert_eq!(hex(10), ">a");
    assert_eq!(hex(255), ">ff");
    assert_eq!(hex(0x1234_abcd), format!(">{:x}", 0x1234_abcdusize));
    assert_eq!(hex(usize::MAX), format!(">{:x}", usize::MAX));
    let padded = |v: usize, w: usize| {
        let mut s = String::new();
        push_hex_padded(&mut s, v, w);
        s
    };
    assert_eq!(padded(0, 6), "000000");
    assert_eq!(padded(0x1f, 2), "1f");
    assert_eq!(padded(0x5, 2), "05");
    assert_eq!(padded(0x12345, 2), "12345");
    assert_eq!(padded(0x1230, 6), format!("{:06x}", 0x1230));
    assert_eq!(padded(7, 0), "7");
    assert_eq!(hex_len(0), 1);
    assert_eq!(hex_len(15), 1);
    assert_eq!(hex_len(16), 2);
    assert_eq!(hex_len(usize::MAX), std::mem::size_of::<usize>() * 2);
    let dec = |v: usize| {
        let mut s = String::from("=");
        push_dec(&mut s, v);
        s
    };
    assert_eq!(dec(0), "=0");
    assert_eq!(dec(9), "=9");
    assert_eq!(dec(10), "=10");
    assert_eq!(dec(131072), "=131072");
    assert_eq!(dec(usize::MAX), format!("={}", usize::MAX));
    let digits: String = (0..16).map(hex_char).collect();
    assert_eq!(digits, "0123456789abcdef");
}

#[test]
fn feature_sets_are_decoded() {
    let set = FeatureSet::decode("sig-rsa,sig-ecdsa overwrite-only,,enc-kw");
    assert_eq!(set.env, "MULTI_FEATURES");
    assert_eq!(set.values, vec!["sig-rsa", "sig-ecdsa overwrite-only", "", "enc-kw"]);
    assert_eq!(FeatureSet::decode("").values, vec![""]);
    assert_eq!(FeatureSet::decode(",").values, vec!["", ""]);
    assert_eq!(FeatureSet::decode("one").values, vec!["one"]);
    assert_eq!(FeatureSet::decode("a,b,").values, vec!["a", "b", ""]);
    assert_eq!(set.textual(), "MULTI_FEATURES: sig-rsa sig-ecdsa overwrite-only  enc-kw");
    assert_eq!(FeatureSet::decode("one").textual(), "MULTI_FEATURES: one");
    let none = FeatureSet { env: "X".to_string(), values: vec![] };
    assert_eq!(none.textual(), "X:");
}

#[test]
fn matrix_runs_each_feature_once() {
    let elements: Vec<String> =
        ["sig-rsa,sig-ecdsa", "enc-kw", "sig-ecdsa,enc-rsa,sig-rsa", "enc-kw,enc-kw"]
            .iter()
            .map(|s| s.to_string())
            .collect();
    let matrix = Matrix::from_elements(&elements);
    let values: Vec<&str> = matrix.envs.iter().map(|set| set.values[0].as_str()).collect();
    assert_eq!(values, vec!["sig-rsa", "sig-ecdsa", "enc-kw", "enc-rsa"]);
    assert!(matrix.envs.iter().all(|set| set.env == "MULTI_FEATURES" && set.values.len() == 1));
    assert!(Matrix::from_elements(&vec![]).envs.is_empty());
    let seen = vec!["a".to_string(), "b".to_string()];
    assert!(is_among(&seen, &"b".to_string()));
    assert!(!is_among(&seen, &"c".to_string()));
}

#[test]
fn status_line_counts() {
    assert_eq!(status_line(3, 12, 40), format!(" {} running ({}/{}/{} done)\r", 3, 12, 15, 40));
    assert_eq!(status_line(0, 0, 0), " 0 running (0/0/0 done)\r");
}
