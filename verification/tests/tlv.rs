use bootsim::image::ImageVersion;
use bootsim::tlv::{KeyRing, ManifestGen, TlvError, TlvFlags, TlvGen, TlvKinds, IMAGE_MAGIC};
use ring::signature::KeyPair;

/// The text of a PEM block with the tag `tag` around `contents`.
fn pem_text(tag: &str, contents: &[u8]) -> Vec<u8> {
    pem::encode(&pem::Pem { tag: tag.to_string(), contents: contents.to_vec() }).into_bytes()
}

/// What stands in front of a P-256 point in a public key document.
const P256_HEAD: [u8; 26] = [
    0x30, 0x59, 0x30, 0x13, 0x06, 0x07, 0x2a, 0x86, 0x48, 0xce, 0x3d, 0x02, 0x01, 0x06, 0x08, 0x2a,
    0x86, 0x48, 0xce, 0x3d, 0x03, 0x01, 0x07, 0x03, 0x42, 0x00,
];

/// What stands in front of an Ed25519 key in a public key document.
const ED25519_HEAD: [u8; 12] =
    [0x30, 0x2a, 0x30, 0x05, 0x06, 0x03, 0x2b, 0x65, 0x70, 0x03, 0x21, 0x00];

/// What stands in front of an X25519 key in a public key document.
const X25519_HEAD: [u8; 12] =
    [0x30, 0x2a, 0x30, 0x05, 0x06, 0x03, 0x2b, 0x65, 0x6e, 0x03, 0x21, 0x00];

fn document(head: &[u8], key: &[u8]) -> Vec<u8> {
    let mut out = head.to_vec();
    out.extend_from_slice(key);
    out
}

fn no_keys() -> KeyRing {
    KeyRing {
        rsa2048_private: vec![],
        rsa2048_public: vec![],
        rsa3072_private: vec![],
        rsa3072_public: vec![],
        ecdsa_private: vec![],
        ecdsa_public: vec![],
        ed25519_private: vec![],
        ed25519_public: vec![],
        enc_ec256_public: vec![],
        enc_x25519_public: vec![],
    }
}

/// The public half of a fresh key pair for key agreement.
fn peer_public(alg: &'static ring::agreement::Algorithm) -> Vec<u8> {
    let rng = ring::rand::SystemRandom::new();
    let key = ring::agreement::EphemeralPrivateKey::generate(alg, &rng).unwrap();
    key.compute_public_key().unwrap().as_ref().to_vec()
}

/// A ring of keys made for this test: signing keys for ECDSA and Ed25519,
/// and public keys to wrap image keys for. There is no RSA key in it: none
/// can be made here.
fn keys() -> KeyRing {
    let rng = ring::rand::SystemRandom::new();
    let alg = &ring::signature::ECDSA_P256_SHA256_ASN1_SIGNING;
    let ecdsa_doc = ring::signature::EcdsaKeyPair::generate_pkcs8(alg, &rng).unwrap();
    let ecdsa = ring::signature::EcdsaKeyPair::from_pkcs8(alg, ecdsa_doc.as_ref()).unwrap();
    let ed_doc = ring::signature::Ed25519KeyPair::generate_pkcs8(&rng).unwrap();
    let ed = ring::signature::Ed25519KeyPair::from_pkcs8(ed_doc.as_ref()).unwrap();
    KeyRing {
        ecdsa_private: pem_text("PRIVATE KEY", ecdsa_doc.as_ref()),
        ecdsa_public: document(&P256_HEAD, ecdsa.public_key().as_ref()),
        ed25519_private: pem_text("PRIVATE KEY", ed_doc.as_ref()),
        ed25519_public: document(&ED25519_HEAD, ed.public_key().as_ref()),
        enc_ec256_public: pem_text(
            "PUBLIC KEY",
            &document(&P256_HEAD, &peer_public(&ring::agreement::ECDH_P256)),
        ),
        enc_x25519_public: pem_text(
            "PUBLIC KEY",
            &document(&X25519_HEAD, &peer_public(&ring::agreement::X25519)),
        ),
        ..no_keys()
    }
}

fn sha256(data: &[u8]) -> Vec<u8> {
    ring::digest::digest(&ring::digest::SHA256, data).as_ref().to_vec()
}

fn payload() -> Vec<u8> {
    (0..200u32).map(|i| (i * 7 + 3) as u8).collect()
}

/// Splits the unprotected block that begins at `at` into its items.
fn items(manifest: &[u8], at: usize) -> Vec<(u16, Vec<u8>)> {
    assert_eq!(&manifest[at..at + 2], &[0x07, 0x69]);
    let size = u16::from_le_bytes([manifest[at + 2], manifest[at + 3]]) as usize;
    assert_eq!(manifest.len(), at + size, "the size field covers the whole block");
    let mut out = Vec::new();
    let mut pos = at + 4;
    while pos < manifest.len() {
        let kind = u16::from_le_bytes([manifest[pos], manifest[pos + 1]]);
        let len = u16::from_le_bytes([manifest[pos + 2], manifest[pos + 3]]) as usize;
        out.push((kind, manifest[pos + 4..pos + 4 + len].to_vec()));
        pos += 4 + len;
    }
    assert_eq!(pos, manifest.len());
    out
}

fn flipped(data: &[u8]) -> Vec<u8> {
    let mut out = data.to_vec();
    out[0] ^= 1;
    out
}

#[test]
fn hash_only_manifest_is_magic_size_and_hash() {
    let mut tlv = TlvGen::new_hash_only();
    tlv.add_bytes(&payload());
    let bytes = tlv.make_tlv(&no_keys()).unwrap();
    let mut want = vec![0x07, 0x69, 40, 0, 0x10, 0, 32, 0];
    want.extend_from_slice(&sha256(&payload()));
    assert_eq!(bytes, want);
}

#[test]
fn payload_is_added_in_pieces() {
    let mut whole = TlvGen::new_hash_only();
    whole.add_bytes(&payload());
    let mut parts = TlvGen::new_hash_only();
    parts.add_bytes(&payload()[..50]);
    parts.add_bytes(&payload()[50..]);
    assert_eq!(whole.make_tlv(&no_keys()).unwrap(), parts.make_tlv(&no_keys()).unwrap());
}

#[test]
fn magic_and_flags() {
    assert_eq!(IMAGE_MAGIC, 0x96f3b83d);
    assert_eq!(TlvGen::new_hash_only().get_magic(), 0x96f3b83d);
    assert_eq!(TlvGen::new_hash_only().get_flags(), 0);
    assert_eq!(TlvGen::new_rsa_pss().get_flags(), 0);
    assert_eq!(TlvGen::new_rsa3072_pss().get_flags(), 0);
    assert_eq!(TlvGen::new_ecdsa().get_flags(), 0);
    assert_eq!(TlvGen::new_ed25519().get_flags(), 0);
    assert_eq!(TlvGen::new_enc_rsa().get_flags(), 4);
    assert_eq!(TlvGen::new_sig_enc_rsa().get_flags(), 4);
    assert_eq!(TlvGen::new_enc_kw().get_flags(), 4);
    assert_eq!(TlvGen::new_rsa_kw().get_flags(), 4);
    assert_eq!(TlvGen::new_ecdsa_kw().get_flags(), 4);
    assert_eq!(TlvGen::new_ecies_p256().get_flags(), 4);
    assert_eq!(TlvGen::new_ecdsa_ecies_p256().get_flags(), 4);
    assert_eq!(TlvGen::new_ecies_x25519().get_flags(), 4);
    assert_eq!(TlvGen::new_ed25519_ecies_x25519().get_flags(), 4);
    assert_eq!(TlvFlags::PIC.value(), 0x01);
    assert_eq!(TlvFlags::NON_BOOTABLE.value(), 0x02);
    assert_eq!(TlvFlags::ENCRYPTED.value(), 0x04);
    assert_eq!(TlvFlags::RAM_LOAD.value(), 0x20);
}

#[test]
fn kinds_of_each_generator() {
    let all = [
        TlvKinds::KEYHASH,
        TlvKinds::SHA256,
        TlvKinds::RSA2048,
        TlvKinds::ECDSA224,
        TlvKinds::ECDSA256,
        TlvKinds::RSA3072,
        TlvKinds::ED25519,
        TlvKinds::ENCRSA2048,
        TlvKinds::ENCKW128,
        TlvKinds::ENCEC256,
        TlvKinds::ENCX25519,
        TlvKinds::DEPENDENCY,
    ];
    let kinds = |tlv: &TlvGen| -> Vec<TlvKinds> {
        all.iter().copied().filter(|k| tlv.has_kind(*k)).collect()
    };
    assert_eq!(kinds(&TlvGen::new_hash_only()), vec![TlvKinds::SHA256]);
    assert_eq!(kinds(&TlvGen::new_rsa_pss()), vec![TlvKinds::SHA256, TlvKinds::RSA2048]);
    assert_eq!(kinds(&TlvGen::new_rsa3072_pss()), vec![TlvKinds::SHA256, TlvKinds::RSA3072]);
    assert_eq!(kinds(&TlvGen::new_ecdsa()), vec![TlvKinds::SHA256, TlvKinds::ECDSA256]);
    assert_eq!(kinds(&TlvGen::new_ed25519()), vec![TlvKinds::SHA256, TlvKinds::ED25519]);
    assert_eq!(kinds(&TlvGen::new_enc_rsa()), vec![TlvKinds::SHA256, TlvKinds::ENCRSA2048]);
    assert_eq!(kinds(&TlvGen::new_sig_enc_rsa()), vec![TlvKinds::SHA256, TlvKinds::RSA2048, TlvKinds::ENCRSA2048]);
    assert_eq!(kinds(&TlvGen::new_enc_kw()), vec![TlvKinds::SHA256, TlvKinds::ENCKW128]);
    assert_eq!(kinds(&TlvGen::new_rsa_kw()), vec![TlvKinds::SHA256, TlvKinds::RSA2048, TlvKinds::ENCKW128]);
    assert_eq!(kinds(&TlvGen::new_ecdsa_kw()), vec![TlvKinds::SHA256, TlvKinds::ECDSA256, TlvKinds::ENCKW128]);
    assert_eq!(kinds(&TlvGen::new_ecies_p256()), vec![TlvKinds::SHA256, TlvKinds::ENCEC256]);
    assert_eq!(kinds(&TlvGen::new_ecdsa_ecies_p256()), vec![TlvKinds::SHA256, TlvKinds::ECDSA256, TlvKinds::ENCEC256]);
    assert_eq!(kinds(&TlvGen::new_ecies_x25519()), vec![TlvKinds::SHA256, TlvKinds::ENCX25519]);
    assert_eq!(kinds(&TlvGen::new_ed25519_ecies_x25519()), vec![TlvKinds::SHA256, TlvKinds::ED25519, TlvKinds::ENCX25519]);
    assert!(TlvGen::new_rsa_pss().has_signature());
    assert!(!TlvGen::new_enc_kw().has_signature());
}

#[test]
fn kind_numbers() {
    assert_eq!(TlvKinds::KEYHASH.number(), 0x01);
    assert_eq!(TlvKinds::SHA256.number(), 0x10);
    assert_eq!(TlvKinds::RSA2048.number(), 0x20);
    assert_eq!(TlvKinds::ECDSA224.number(), 0x21);
    assert_eq!(TlvKinds::ECDSA256.number(), 0x22);
    assert_eq!(TlvKinds::RSA3072.number(), 0x23);
    assert_eq!(TlvKinds::ED25519.number(), 0x24);
    assert_eq!(TlvKinds::ENCRSA2048.number(), 0x30);
    assert_eq!(TlvKinds::ENCKW128.number(), 0x31);
    assert_eq!(TlvKinds::ENCEC256.number(), 0x32);
    assert_eq!(TlvKinds::ENCX25519.number(), 0x33);
    assert_eq!(TlvKinds::DEPENDENCY.number(), 0x40);
}

#[test]
fn dependencies_make_the_protected_block() {
    let mut tlv = TlvGen::new_hash_only();
    assert_eq!(tlv.protect_size(), 0);
    tlv.add_dependency(
        1,
        &ImageVersion { major: 21, minor: 1, revision: 0x0102, build_num: 0x0a0b0c0d },
    );
    assert_eq!(tlv.protect_size(), 20);
    tlv.add_dependency(0, &ImageVersion { major: 1, minor: 0, revision: 1, build_num: 1 });
    assert_eq!(tlv.protect_size(), 36);
    tlv.add_bytes(&payload());
    let bytes = tlv.make_tlv(&no_keys()).unwrap();
    let protected: Vec<u8> = vec![
        0x08, 0x69, 36, 0, // the protected block and its size
        0x40, 0, 12, 0, 1, 0, 0, 0, 21, 1, 0x02, 0x01, 0x0d, 0x0c, 0x0b, 0x0a, //
        0x40, 0, 12, 0, 0, 0, 0, 0, 1, 0, 1, 0, 1, 0, 0, 0,
    ];
    assert_eq!(&bytes[..36], &protected[..]);
    assert_eq!(tlv.protected_block(), protected);
    // The hash covers the payload and the protected block.
    let mut message = payload();
    message.extend_from_slice(&protected);
    assert_eq!(tlv.message(), message);
    assert_eq!(items(&bytes, 36), vec![(0x10, sha256(&message))]);
}

#[test]
fn corrupt_hash_only_manifest_hashes_other_bytes() {
    let mut tlv = TlvGen::new_hash_only();
    tlv.add_bytes(&payload());
    tlv.corrupt_sig();
    let bytes = tlv.make_tlv(&no_keys()).unwrap();
    let found = items(&bytes, 0);
    assert_eq!(found, vec![(0x10, sha256(&flipped(&payload())))]);
    assert_ne!(found[0].1, sha256(&payload()));
}

#[test]
fn rsa_manifest_needs_a_usable_key() {
    for rsa3072 in [false, true] {
        let mut tlv = if rsa3072 { TlvGen::new_rsa3072_pss() } else { TlvGen::new_rsa_pss() };
        tlv.add_bytes(&payload());
        let with = |private: Vec<u8>| {
            let mut ring = no_keys();
            if rsa3072 {
                ring.rsa3072_private = private;
            } else {
                ring.rsa2048_private = private;
            }
            ring
        };
        assert_eq!(tlv.make_tlv(&no_keys()), Err(TlvError::BadPem));
        assert_eq!(tlv.make_tlv(&with(b"no key at all".to_vec())), Err(TlvError::BadPem));
        // A key of another kind.
        assert_eq!(tlv.make_tlv(&keys()), Err(TlvError::BadPem));
        assert_eq!(
            tlv.make_tlv(&with(keys().ecdsa_private)),
            Err(TlvError::WrongKeyTag)
        );
        // The right tag around what is no key.
        assert_eq!(
            tlv.make_tlv(&with(pem_text("RSA PRIVATE KEY", &[0, 1, 2, 3, 4, 5, 6, 7]))),
            Err(TlvError::SigningFailed)
        );
    }
    // The key of the other size is not looked at.
    let mut tlv = TlvGen::new_rsa_pss();
    tlv.add_bytes(&payload());
    let mut ring = no_keys();
    ring.rsa3072_private = pem_text("RSA PRIVATE KEY", &[0, 1, 2, 3]);
    assert_eq!(tlv.make_tlv(&ring), Err(TlvError::BadPem));
}

#[test]
fn ecdsa_manifest_verifies() {
    let mut tlv = TlvGen::new_ecdsa();
    tlv.add_bytes(&payload());
    let ring = keys();
    let bytes = tlv.make_tlv(&ring).unwrap();
    let found = items(&bytes, 0);
    assert_eq!(found.len(), 3);
    assert_eq!(found[0], (0x10, sha256(&payload())));
    assert_eq!(found[1], (0x01, sha256(&ring.ecdsa_public)));
    assert_eq!(found[2].0, 0x22);
    let point = &ring.ecdsa_public[26..];
    assert_eq!(point.len(), 65);
    let key =
        ring::signature::UnparsedPublicKey::new(&ring::signature::ECDSA_P256_SHA256_ASN1, point);
    assert!(key.verify(&payload(), &found[2].1).is_ok());
    assert!(key.verify(&flipped(&payload()), &found[2].1).is_err());
}

#[test]
fn ed25519_manifest_verifies() {
    let mut tlv = TlvGen::new_ed25519();
    tlv.add_bytes(&payload());
    let ring = keys();
    let bytes = tlv.make_tlv(&ring).unwrap();
    let found = items(&bytes, 0);
    assert_eq!(found.len(), 3);
    assert_eq!(found[0], (0x10, sha256(&payload())));
    assert_eq!(found[1], (0x01, sha256(&ring.ed25519_public)));
    assert_eq!(found[2].0, 0x24);
    assert_eq!(found[2].1.len(), 64);
    // The signature is over the hash of the message.
    let key = ring::signature::UnparsedPublicKey::new(
        &ring::signature::ED25519,
        &ring.ed25519_public[12..44],
    );
    assert!(key.verify(&sha256(&payload()), &found[2].1).is_ok());
    assert!(key.verify(&payload(), &found[2].1).is_err());
    // Ed25519 is deterministic.
    assert_eq!(bytes, tlv.make_tlv(&ring).unwrap());
}

#[test]
fn corrupt_ed25519_manifest_fails_the_signature() {
    let mut tlv = TlvGen::new_ed25519();
    tlv.add_bytes(&payload());
    tlv.corrupt_sig();
    let ring = keys();
    let found = items(&tlv.make_tlv(&ring).unwrap(), 0);
    // The hash passes, so that it is the signature that is seen to fail.
    assert_eq!(found[0], (0x10, sha256(&payload())));
    let key = ring::signature::UnparsedPublicKey::new(
        &ring::signature::ED25519,
        &ring.ed25519_public[12..44],
    );
    assert!(key.verify(&sha256(&payload()), &found[2].1).is_err());
    assert!(key.verify(&sha256(&flipped(&payload())), &found[2].1).is_ok());
}

#[test]
fn key_errors() {
    let mut ed = TlvGen::new_ed25519();
    ed.add_bytes(&payload());
    assert_eq!(ed.make_tlv(&no_keys()), Err(TlvError::BadPem));
    let mut wrong_tag = keys();
    wrong_tag.ed25519_private = wrong_tag.enc_x25519_public.clone();
    assert_eq!(ed.make_tlv(&wrong_tag), Err(TlvError::WrongKeyTag));
    let mut short = keys();
    short.ed25519_public.truncate(40);
    assert_eq!(ed.make_tlv(&short), Err(TlvError::ShortKey));
    let mut brief = keys();
    brief.ed25519_private = pem_text("PRIVATE KEY", &[7; 40]);
    assert_eq!(ed.make_tlv(&brief), Err(TlvError::ShortKey));
    let mut mismatched = keys();
    mismatched.ed25519_public = vec![0x42; 44];
    assert_eq!(ed.make_tlv(&mismatched), Err(TlvError::SigningFailed));

    let mut ec = TlvGen::new_ecdsa();
    ec.add_bytes(&payload());
    assert_eq!(ec.make_tlv(&no_keys()), Err(TlvError::BadPem));
    let mut bad = keys();
    bad.ecdsa_private = bad.ed25519_private.clone();
    assert_eq!(ec.make_tlv(&bad), Err(TlvError::SigningFailed));
    let mut tagged = keys();
    tagged.ecdsa_private = tagged.enc_ec256_public.clone();
    assert_eq!(ec.make_tlv(&tagged), Err(TlvError::WrongKeyTag));
}

#[test]
fn private_key_reads_pem() {
    let ring = keys();
    let contents = bootsim::tlv::private_key(&ring.ed25519_private, "PRIVATE KEY").unwrap();
    // What the text holds, decoded: the key's document, whose public half is
    // the public key of the ring.
    assert_eq!(contents.len(), 85);
    assert_eq!(&contents[53..], &ring.ed25519_public[12..]);
    assert_ne!(contents, ring.ed25519_private);
    assert_eq!(
        bootsim::tlv::private_key(&ring.ed25519_private, "PUBLIC KEY"),
        Err(TlvError::WrongKeyTag)
    );
    assert_eq!(bootsim::tlv::private_key(b"not a key", "PRIVATE KEY"), Err(TlvError::BadPem));
    assert_eq!(
        bootsim::tlv::private_key(&pem_text("ANY TAG", &[1, 2, 3, 250]), "ANY TAG"),
        Ok(vec![1, 2, 3, 250])
    );
}

#[test]
fn wrapped_keys_are_carried() {
    let key: Vec<u8> = (1..=16).collect();
    let wrapped: Vec<u8> = (0..24).map(|i| 0xa0 + i as u8).collect();
    let mut tlv = TlvGen::new_enc_kw();
    tlv.add_bytes(&payload());
    assert!(!tlv.is_ready());
    assert!(!tlv.has_enc_key());
    tlv.set_enc_key(key.clone(), wrapped.clone());
    assert!(tlv.is_ready());
    assert!(tlv.has_enc_key());
    assert_eq!(tlv.get_enc_key(), key);
    let found = items(&tlv.make_tlv(&no_keys()).unwrap(), 0);
    assert_eq!(found, vec![(0x10, sha256(&payload())), (0x31, wrapped.clone())]);

    let long: Vec<u8> = (0..256).map(|i| i as u8).collect();
    let mut tlv = TlvGen::new_enc_rsa();
    tlv.add_bytes(&payload());
    tlv.set_enc_key(key.clone(), wrapped.clone());
    // A wrapped key of the length of the other scheme will not do.
    assert!(!tlv.is_ready());
    tlv.set_enc_key(key.clone(), long.clone());
    assert!(tlv.is_ready());
    let found = items(&tlv.make_tlv(&no_keys()).unwrap(), 0);
    assert_eq!(found, vec![(0x10, sha256(&payload())), (0x30, long)]);

    let mut tlv = TlvGen::new_ecdsa_kw();
    tlv.add_bytes(&payload());
    tlv.set_enc_key(key, wrapped.clone());
    let found = items(&tlv.make_tlv(&keys()).unwrap(), 0);
    assert_eq!(found.len(), 4);
    assert_eq!(found[1].0, 0x01);
    assert_eq!(found[2].0, 0x22);
    assert_eq!(found[3], (0x31, wrapped));
}

#[test]
fn generated_key_is_sixteen_random_bytes() {
    let mut tlv = TlvGen::new_ecies_p256();
    assert!(tlv.generate_enc_key());
    let first = tlv.get_enc_key();
    assert_eq!(first.len(), 16);
    assert!(tlv.generate_enc_key());
    assert_ne!(first, tlv.get_enc_key());
}

#[test]
fn ecies_p256_manifest_wraps_the_key() {
    let mut tlv = TlvGen::new_ecdsa_ecies_p256();
    tlv.add_bytes(&payload());
    assert!(!tlv.is_ready());
    assert!(tlv.generate_enc_key());
    assert!(tlv.is_ready());
    let found = items(&tlv.make_tlv(&keys()).unwrap(), 0);
    assert_eq!(found.len(), 4);
    assert_eq!(found[2].0, 0x22);
    assert_eq!(found[3].0, 0x32);
    let blob = &found[3].1;
    assert_eq!(blob.len(), 113);
    // An uncompressed point, a tag, and the encrypted key.
    assert_eq!(blob[0], 0x04);
    assert_ne!(&blob[97..], &tlv.get_enc_key()[..]);
    // Each manifest is made with a fresh key pair.
    let again = items(&tlv.make_tlv(&keys()).unwrap(), 0);
    assert_ne!(again[3].1, *blob);
}

#[test]
fn ecies_x25519_manifest_wraps_the_key() {
    let mut tlv = TlvGen::new_ed25519_ecies_x25519();
    tlv.add_bytes(&payload());
    assert!(tlv.generate_enc_key());
    let found = items(&tlv.make_tlv(&keys()).unwrap(), 0);
    assert_eq!(found.len(), 4);
    assert_eq!(found[2].0, 0x24);
    assert_eq!(found[3].0, 0x33);
    assert_eq!(found[3].1.len(), 80);
    assert_ne!(&found[3].1[64..], &tlv.get_enc_key()[..]);

    let mut plain = TlvGen::new_ecies_x25519();
    plain.add_bytes(&payload());
    assert!(plain.generate_enc_key());
    let found = items(&plain.make_tlv(&keys()).unwrap(), 0);
    assert_eq!(found.len(), 2);
    assert_eq!(found[1].1.len(), 80);
}

#[test]
fn ecies_needs_its_public_key() {
    let mut tlv = TlvGen::new_ecies_p256();
    tlv.add_bytes(&payload());
    assert!(tlv.generate_enc_key());
    assert_eq!(tlv.make_tlv(&no_keys()), Err(TlvError::BadPem));
    let mut wrong = keys();
    wrong.enc_ec256_public = wrong.enc_x25519_public.clone();
    assert_eq!(tlv.make_tlv(&wrong), Err(TlvError::AgreementFailed));
}

#[test]
fn helpers_lay_out_items() {
    let mut buf = vec![9];
    bootsim::tlv::push_entry(&mut buf, TlvKinds::KEYHASH, &[1, 2, 3]);
    assert_eq!(buf, vec![9, 0x01, 0, 3, 0, 1, 2, 3]);
    assert_eq!(
        bootsim::tlv::manifest_bytes(&[0xaa, 0xbb], &[1, 2, 3]),
        vec![0xaa, 0xbb, 0x07, 0x69, 7, 0, 1, 2, 3]
    );
    assert_eq!(bootsim::tlv::flip(&vec![0x10, 0x20]), vec![0x11, 0x20]);
    assert_eq!(bootsim::tlv::flip(&vec![0x11]), vec![0x10]);
}

/// A key ring whose RSA key is a PEM block with the right tag around bytes
/// that are no key: enough where the signature is given.
fn tagged_keys() -> KeyRing {
    KeyRing {
        rsa2048_private: pem_text("RSA PRIVATE KEY", &[1, 2, 3]),
        rsa2048_public: vec![5; 270],
        rsa3072_private: pem_text("RSA PRIVATE KEY", &[4, 5, 6]),
        rsa3072_public: vec![6; 398],
        ..keys()
    }
}

#[test]
fn manifest_with_a_given_rsa_signature() {
    // Hash, key hash, RSA-2048 signature and RSA-wrapped key: 4 + 36 + 36 +
    // 260 + 260 bytes.
    let mut tlv = TlvGen::new_sig_enc_rsa();
    assert_eq!(tlv.get_flags(), 4);
    assert_eq!(tlv.protect_size(), 0);
    tlv.add_bytes(&payload());
    tlv.set_enc_key(vec![9; 16], vec![8; 256]);
    let ring = tagged_keys();
    let signature = vec![0x5a; 256];
    let manifest = tlv.seal_with(&ring, Some(signature.clone()), None, None).unwrap();
    assert_eq!(manifest.len(), 596);
    assert_eq!(&manifest[..4], &[0x07, 0x69, 0x54, 0x02]);
    let found = items(&manifest, 0);
    assert_eq!(
        found,
        vec![
            (0x10, sha256(&payload())),
            (0x01, sha256(&ring.rsa2048_public)),
            (0x20, signature),
            (0x30, vec![8; 256]),
        ]
    );
    // The signature has to be there and to have the length of its kind.
    assert_eq!(tlv.seal_with(&ring, None, None, None), Err(TlvError::SigningFailed));
    assert_eq!(
        tlv.seal_with(&ring, Some(vec![0; 255]), None, None),
        Err(TlvError::SignatureSize)
    );
    assert_eq!(
        tlv.seal_with(&ring, Some(vec![0; 384]), None, None),
        Err(TlvError::SignatureSize)
    );
    // The key is looked at first, whatever the signature.
    assert_eq!(
        tlv.seal_with(&no_keys(), Some(vec![0; 256]), None, None),
        Err(TlvError::BadPem)
    );
    let mut wrong = tagged_keys();
    wrong.rsa2048_private = pem_text("PRIVATE KEY", &[1, 2, 3]);
    assert_eq!(tlv.seal_with(&wrong, Some(vec![0; 256]), None, None), Err(TlvError::WrongKeyTag));
    // RSA-3072 has signatures of 384 bytes.
    let mut wide = TlvGen::new_rsa3072_pss();
    wide.add_bytes(&payload());
    let manifest = wide.seal_with(&ring, Some(vec![3; 384]), None, None).unwrap();
    assert_eq!(manifest.len(), 4 + 36 + 36 + 388);
    assert_eq!(items(&manifest, 0)[2], (0x23, vec![3; 384]));
    assert_eq!(
        wide.seal_with(&ring, Some(vec![3; 256]), None, None),
        Err(TlvError::SignatureSize)
    );
}

#[test]
fn manifest_with_a_given_ecdsa_signature() {
    let mut tlv = TlvGen::new_ecdsa();
    tlv.add_bytes(&payload());
    let ring = keys();
    let manifest = tlv.seal_with(&ring, None, Some(vec![7; 70]), None).unwrap();
    assert_eq!(manifest.len(), 4 + 36 + 36 + 74);
    assert_eq!(items(&manifest, 0)[2], (0x22, vec![7; 70]));
    assert_eq!(tlv.seal_with(&ring, None, None, None), Err(TlvError::SigningFailed));
    assert_eq!(
        tlv.seal_with(&ring, None, Some(vec![7; 1025]), None),
        Err(TlvError::SignatureSize)
    );
    // What was given for a kind that the generator has not is not used.
    let same = tlv.seal_with(&ring, Some(vec![1; 256]), Some(vec![7; 70]), None).unwrap();
    assert_eq!(same, manifest);
}

#[test]
fn manifest_with_a_given_agreement() {
    let mut tlv = TlvGen::new_ecies_p256();
    tlv.add_bytes(&payload());
    assert!(tlv.keep_enc_key(Some(vec![9; 16])));
    let ring = keys();
    let public = vec![4; 65];
    let secret = vec![2; 32];
    let first = tlv.seal_with(&ring, None, None, Some((public.clone(), secret.clone()))).unwrap();
    assert_eq!(first.len(), 4 + 36 + 117);
    let found = items(&first, 0);
    assert_eq!(found[1].0, 0x32);
    assert_eq!(&found[1].1[..65], &public[..]);
    // The same agreement wraps the key in the same way; another secret does
    // not.
    let again = tlv.seal_with(&ring, None, None, Some((public.clone(), secret))).unwrap();
    assert_eq!(again, first);
    let other = tlv.seal_with(&ring, None, None, Some((public.clone(), vec![3; 32]))).unwrap();
    assert!(other != first);
    assert_eq!(&other[..4 + 36 + 4 + 65], &first[..4 + 36 + 4 + 65]);
    // No agreement, or a public key of another length.
    assert_eq!(tlv.seal_with(&ring, None, None, None), Err(TlvError::AgreementFailed));
    assert_eq!(
        tlv.seal_with(&ring, None, None, Some((vec![4; 32], vec![2; 32]))),
        Err(TlvError::WrappedKeySize)
    );
    // The peer's key is looked at first.
    let mut short = keys();
    short.enc_ec256_public = pem_text("PUBLIC KEY", &[1; 20]);
    assert_eq!(
        tlv.seal_with(&short, None, None, Some((public.clone(), vec![2; 32]))),
        Err(TlvError::ShortKey)
    );
    assert_eq!(
        tlv.seal_with(&no_keys(), None, None, Some((public, vec![2; 32]))),
        Err(TlvError::BadPem)
    );
    // X25519 has public keys of 32 bytes.
    let mut x = TlvGen::new_ecies_x25519();
    x.add_bytes(&payload());
    assert!(x.keep_enc_key(Some(vec![9; 16])));
    let manifest = x.seal_with(&ring, None, None, Some((vec![4; 32], vec![2; 32]))).unwrap();
    assert_eq!(manifest.len(), 4 + 36 + 84);
    assert_eq!(items(&manifest, 0)[1].0, 0x33);
}

#[test]
fn what_is_drawn_has_the_lengths_of_its_kind() {
    let ring = keys();
    // Nothing is drawn for a generator that only hashes, or signs with
    // Ed25519.
    let mut plain = TlvGen::new_hash_only();
    plain.add_bytes(&payload());
    assert_eq!(plain.draw(&ring), (None, None, None));
    let mut ed = TlvGen::new_ed25519();
    ed.add_bytes(&payload());
    assert_eq!(ed.draw(&ring), (None, None, None));
    assert_eq!(ed.make_tlv(&ring), ed.seal_with(&ring, None, None, None));
    assert_eq!(ed.make_tlv(&ring).unwrap().len(), 4 + 36 + 36 + 68);
    // An ECDSA signature, which differs from draw to draw.
    let mut ec = TlvGen::new_ecdsa();
    ec.add_bytes(&payload());
    let (rsa, first, agreed) = ec.draw(&ring);
    assert_eq!((rsa, agreed), (None, None));
    let first = first.unwrap();
    assert!(first.len() <= 105);
    let key = ring::signature::UnparsedPublicKey::new(
        &ring::signature::ECDSA_P256_SHA256_ASN1,
        &ring.ecdsa_public[26..],
    );
    assert!(key.verify(&payload(), &first).is_ok());
    assert!(ec.draw(&ring).1.unwrap() != first);
    // No signature where the key cannot be read.
    assert_eq!(ec.draw(&no_keys()), (None, None, None));
    // An agreement on each curve.
    let mut p = TlvGen::new_ecies_p256();
    p.add_bytes(&payload());
    assert!(p.generate_enc_key());
    let (public, secret) = p.draw(&ring).2.unwrap();
    assert_eq!((public.len(), secret.len()), (65, 32));
    let mut x = TlvGen::new_ecies_x25519();
    x.add_bytes(&payload());
    assert!(x.generate_enc_key());
    let (public, secret) = x.draw(&ring).2.unwrap();
    assert_eq!((public.len(), secret.len()), (32, 32));
    // An RSA key that is no key gives no signature.
    let mut rsa = TlvGen::new_rsa_pss();
    rsa.add_bytes(&payload());
    assert_eq!(rsa.draw(&tagged_keys()), (None, None, None));
    assert_eq!(rsa.make_tlv(&tagged_keys()), Err(TlvError::SigningFailed));
}
