//! Images: what is installed in the slots of the simulated devices, and what
//! is expected to be found there after the bootloader has run.

use crate::bytes::{le16, le32, push_all, push_le16, push_le32};
use crate::caps::{BootInfo, Caps};
use crate::crypto::{aes128_ctr, aes128_ctr_stream, seeded_bytes, small_rng_bytes};
use crate::depends::Depender;
use crate::flash::{SimFlash, WriteFault};
use crate::text::{dec_digits, hex_digits, push_dec, push_hex};
use crate::tlv::{
    fresh, zero_bytes, Dependency, KeyRing, ManifestGen, Seals, TlvError, TlvFlags, TlvGen,
    TlvKinds, TlvState, AES_KEY_LEN, IMAGE_MAGIC, MAX_DEPENDENCIES,
};
use std::collections::HashMap;
use vstd::prelude::*;
use vstd::string::StringExecFns;

verus! {

broadcast use vstd::std_specs::hash::group_hash_axioms;

/// The version of an image: major, minor, revision and build number.
#[derive(Copy, Clone, Debug, PartialEq, Eq, Structural)]
pub struct ImageVersion {
    pub major: u8,
    pub minor: u8,
    pub revision: u16,
    pub build_num: u32,
}

impl ImageVersion {
    /// This version comes before `other`: versions are ordered by their
    /// major number, then the minor, then the revision, then the build
    /// number.
    pub open spec fn precedes(self, other: ImageVersion) -> bool {
        self.major < other.major || (self.major == other.major && (self.minor < other.minor || (
        self.minor == other.minor && (self.revision < other.revision || (self.revision
            == other.revision && self.build_num < other.build_num)))))
    }

    /// Whether this version comes before `other`.
    pub fn is_before(&self, other: &ImageVersion) -> (before: bool)
        ensures
            before == self.precedes(*other),
    {
        if self.major != other.major {
            self.major < other.major
        } else if self.minor != other.minor {
            self.minor < other.minor
        } else if self.revision != other.revision {
            self.revision < other.revision
        } else {
            self.build_num < other.build_num
        }
    }
}

/// Versions are in a strict total order: no version comes before itself, of
/// two different versions exactly one comes before the other, and what
/// comes before a version comes before all that come after it.
pub proof fn law_version_order(a: ImageVersion, b: ImageVersion, c: ImageVersion)
    ensures
        !a.precedes(a),
        a != b ==> (a.precedes(b) <==> !b.precedes(a)),
        a == b ==> !a.precedes(b),
        a.precedes(b) && b.precedes(c) ==> a.precedes(c),
{
}

/// Where a slot lies.
#[derive(Copy, Clone, Debug, PartialEq, Eq, Structural)]
pub struct SlotInfo {
    /// The offset of the slot in its device.
    pub base_off: usize,
    /// The offset in its device of the part of the slot's trailer that the
    /// tests look at.
    pub trailer_off: usize,
    /// The length of the slot.
    pub len: usize,
    /// Which slot within this device.
    pub index: usize,
    /// The device that holds the slot.
    pub dev_id: u8,
}

/// The simulated devices of one configuration, by device id.
pub type SimMultiFlash = HashMap<u8, SimFlash>;

/// Every device in `devices` is well formed.
pub open spec fn all_wf(devices: Map<u8, SimFlash>) -> bool {
    forall|id: u8| devices.contains_key(id) ==> (#[trigger] devices[id]).wf()
}

/// `after` holds the devices of `before`, and each but device `id` as it
/// was.
pub open spec fn only_changed(before: Map<u8, SimFlash>, after: Map<u8, SimFlash>, id: u8) -> bool {
    &&& after.dom() == before.dom()
    &&& forall|other: u8| other != id && before.contains_key(other) ==> after[other] == before[other]
}

/// Why the harness cannot go on. Each of these shows a defect of the setup
/// or of the component under test that no scenario expects; a test that
/// meets one is abandoned.
#[derive(Copy, Clone, Debug, PartialEq, Eq, Structural)]
pub enum Abort {
    /// A slot names a device that is not there.
    NoDevice,
    /// A read or an erase did not fit its device.
    OutOfBounds,
    /// The device cannot perform a write that the harness makes.
    Fault(WriteFault),
    /// A write that the harness makes was failed by a bad region.
    SimulatedFail,
    /// The image is too small to hold the text that marks it.
    ImageTooSmall,
    /// The manifest could not be made.
    Manifest(TlvError),
    /// The image is to be encrypted under a key that is wrapped outside the
    /// harness, and none was given.
    NoWrappedKey,
    /// No encryption key could be drawn, or the image could not be
    /// encrypted with it.
    Encryption,
    /// The bootloader reported a status that no scenario knows.
    UnknownStatus,
    /// The bootloader halted where it was given no budget, or failed where
    /// the scenario cannot go on without success.
    UnexpectedStatus,
    /// The write alignment is more than the harness can mark a trailer with.
    Alignment,
    /// A count of flash operations does not fit its type.
    Overflow,
    /// There are too few flash operations to interrupt.
    NoRoom,
    /// An image is looked for where none was installed.
    NoImage,
    /// What was installed in a slot is not found there any more: another
    /// slot, or the partition table, lies over it.
    Overlap,
}

/// The image header.
#[derive(Copy, Clone, Debug, PartialEq, Eq, Structural)]
pub struct ImageHeader {
    pub magic: u32,
    pub load_addr: u32,
    pub hdr_size: u16,
    pub protect_tlv_size: u16,
    pub img_size: u32,
    pub flags: u32,
    pub ver: ImageVersion,
    pub pad: u32,
}

/// The size of an image header.
pub const HDR_SIZE: usize = 32;

/// The bytes of the header `h`: its fields in order, each least significant
/// byte first.
pub open spec fn header_bytes(h: ImageHeader) -> Seq<u8> {
    le32(h.magic) + le32(h.load_addr) + le16(h.hdr_size) + le16(h.protect_tlv_size) + le32(
        h.img_size,
    ) + le32(h.flags) + seq![h.ver.major, h.ver.minor] + le16(h.ver.revision) + le32(
        h.ver.build_num,
    ) + le32(h.pad)
}

impl ImageHeader {
    /// The bytes of the header as they stand in flash.
    pub fn as_raw(&self) -> (raw: Vec<u8>)
        ensures
            raw@ == header_bytes(*self),
            raw@.len() == HDR_SIZE,
    {
        let mut raw: Vec<u8> = Vec::new();
        push_le32(&mut raw, self.magic);
        push_le32(&mut raw, self.load_addr);
        push_le16(&mut raw, self.hdr_size);
        push_le16(&mut raw, self.protect_tlv_size);
        push_le32(&mut raw, self.img_size);
        push_le32(&mut raw, self.flags);
        raw.push(self.ver.major);
        raw.push(self.ver.minor);
        push_le16(&mut raw, self.ver.revision);
        push_le32(&mut raw, self.ver.build_num);
        push_le32(&mut raw, self.pad);
        assert(raw@ =~= header_bytes(*self));
        raw
    }
}

/// The seed of the pseudo-random payload of `len` bytes that goes to offset
/// `seed`: two fixed words, then the length and the offset, each cut to 32
/// bits.
pub open spec fn splat_seed(len: usize, seed: usize) -> Seq<u8> {
    le32(0x135782ea) + le32(0x92184728) + le32(len as u32) + le32(seed as u32)
}

/// The pseudo-random payload of `len` bytes that goes to offset `seed`.
pub open spec fn splat_bytes(len: usize, seed: usize) -> Seq<u8> {
    small_rng_bytes(splat_seed(len, seed), len as nat, usize::BITS)
}

/// Pseudo-random gibberish of `len` bytes, the same for the same length and
/// seed.
pub fn splat(len: usize, seed: usize) -> (data: Vec<u8>)
    ensures
        data@ == splat_bytes(len, seed),
        data@.len() == len,
{
    let mut block: Vec<u8> = Vec::new();
    push_le32(&mut block, 0x135782ea);
    push_le32(&mut block, 0x92184728);
    push_le32(&mut block, #[verifier::truncate] (len as u32));
    push_le32(&mut block, #[verifier::truncate] (seed as u32));
    assert(block@ =~= splat_seed(len, seed));
    seeded_bytes(block.as_slice(), len)
}

/// The number of bytes that bring a length of `len` up to a multiple of
/// `align`.
pub open spec fn padding(len: nat, align: nat) -> nat {
    if len % align == 0 {
        0
    } else {
        (align - len % align) as nat
    }
}

/// `bytes` with `fill` added up to a multiple of `align`.
pub open spec fn padded(bytes: Seq<u8>, align: nat, fill: u8) -> Seq<u8> {
    bytes + Seq::new(padding(bytes.len(), align), |i: int| fill)
}

/// Pads `buf` with `fill` to a multiple of `align`.
pub fn pad_to(buf: &mut Vec<u8>, align: usize, fill: u8)
    requires
        align > 0,
        old(buf)@.len() + align <= usize::MAX,
    ensures
        final(buf)@ == padded(old(buf)@, align as nat, fill),
        final(buf)@.len() % (align as nat) == 0,
{
    let rest = buf.len() % align;
    let need = if rest == 0 {
        0
    } else {
        align - rest
    };
    let mut i: usize = 0;
    while i < need
        invariant
            i <= need,
            need < align || need == 0,
            old(buf)@.len() + align <= usize::MAX,
            buf@ == old(buf)@ + Seq::new(i as nat, |k: int| fill),
        decreases need - i,
    {
        buf.push(fill);
        i = i + 1;
        assert(buf@ =~= old(buf)@ + Seq::new(i as nat, |k: int| fill));
    }
    let ghost start = old(buf)@.len();
    assert((start + need) % (align as int) == 0) by (nonlinear_arith)
        requires
            rest == start % (align as nat),
            align > 0,
            need == (if rest == 0 {
                0
            } else {
                align - rest
            }),
            0 <= rest < align,
    ;
}

/// The Rust-side representation of an image.  For unencrypted images, this
/// is just the unencrypted payload.  For encrypted images, we store both
/// the encrypted and the plaintext.
#[derive(Debug, PartialEq, Eq)]
pub struct ImageData {
    pub plain: Vec<u8>,
    pub cipher: Option<Vec<u8>>,
}

impl ImageData {
    /// The image, of the two, that is expected in slot `slot` of a
    /// bootloader that encrypts or does not: the plain one, but for the
    /// upgrade slot of one that encrypts.
    pub open spec fn expected(&self, encrypts: bool, slot: usize) -> Seq<u8> {
        if encrypts && slot == 1 {
            self.cipher.unwrap()@
        } else {
            self.plain@
        }
    }

    /// There is an image to expect in slot `slot`.
    pub open spec fn findable(&self, encrypts: bool, slot: usize) -> bool {
        encrypts ==> slot == 0 || (slot == 1 && self.cipher is Some)
    }

    /// Find the image contents for the given slot.  This assumes that slot 0
    /// is unencrypted, and slot 1 is encrypted.
    pub fn find(&self, slot: usize, info: &BootInfo) -> (image: &Vec<u8>)
        requires
            self.findable(info.encrypts(), slot),
        ensures
            image@ == self.expected(info.encrypts(), slot),
    {
        if info.is_encrypted() && slot == 1 {
            match &self.cipher {
                Some(cipher) => cipher,
                None => &self.plain,
            }
        } else {
            &self.plain
        }
    }
}

/// Install no image.  This is used when no upgrade happens.
pub fn install_no_image() -> (image: ImageData)
    ensures
        image.plain@.len() == 0,
        image.cipher is None,
{
    ImageData { plain: Vec::new(), cipher: None }
}

/// The kinds of item that the manifests for a bootloader with the
/// capabilities `caps` hold: always a hash; the signature of the first
/// scheme that the bootloader checks, and the wrapped key of the first
/// encryption scheme it uses.
pub open spec fn manifest_kinds(caps: u32) -> Seq<TlvKinds> {
    if Caps::EncKw.in_set(caps) {
        if Caps::RSA2048.in_set(caps) {
            seq![TlvKinds::SHA256, TlvKinds::RSA2048, TlvKinds::ENCKW128]
        } else if Caps::EcdsaP256.in_set(caps) {
            seq![TlvKinds::SHA256, TlvKinds::ECDSA256, TlvKinds::ENCKW128]
        } else {
            seq![TlvKinds::SHA256, TlvKinds::ENCKW128]
        }
    } else if Caps::EncRsa.in_set(caps) {
        if Caps::RSA2048.in_set(caps) {
            seq![TlvKinds::SHA256, TlvKinds::RSA2048, TlvKinds::ENCRSA2048]
        } else {
            seq![TlvKinds::SHA256, TlvKinds::ENCRSA2048]
        }
    } else if Caps::EncEc256.in_set(caps) {
        if Caps::EcdsaP256.in_set(caps) {
            seq![TlvKinds::SHA256, TlvKinds::ECDSA256, TlvKinds::ENCEC256]
        } else {
            seq![TlvKinds::SHA256, TlvKinds::ENCEC256]
        }
    } else if Caps::EncX25519.in_set(caps) {
        if Caps::Ed25519.in_set(caps) {
            seq![TlvKinds::SHA256, TlvKinds::ED25519, TlvKinds::ENCX25519]
        } else {
            seq![TlvKinds::SHA256, TlvKinds::ENCX25519]
        }
    } else if Caps::RSA2048.in_set(caps) {
        seq![TlvKinds::SHA256, TlvKinds::RSA2048]
    } else if Caps::RSA3072.in_set(caps) {
        seq![TlvKinds::SHA256, TlvKinds::RSA3072]
    } else if Caps::EcdsaP256.in_set(caps) {
        seq![TlvKinds::SHA256, TlvKinds::ECDSA256]
    } else if Caps::Ed25519.in_set(caps) {
        seq![TlvKinds::SHA256, TlvKinds::ED25519]
    } else {
        seq![TlvKinds::SHA256]
    }
}

/// The header flags of the images for a bootloader with the capabilities
/// `caps`: the encrypted flag where it uses an encryption scheme.
pub open spec fn manifest_flags(caps: u32) -> u32 {
    if Caps::EncKw.in_set(caps) || Caps::EncRsa.in_set(caps) || Caps::EncEc256.in_set(caps)
        || Caps::EncX25519.in_set(caps) {
        TlvFlags::ENCRYPTED.bits()
    } else {
        0
    }
}

/// The manifest generator for a bootloader with the capabilities `caps`.
/// ECDSA on P-224 is not supported by the simulator.
pub fn make_tlv(caps: u32) -> (tlv: TlvGen)
    requires
        !Caps::EcdsaP224.in_set(caps),
    ensures
        tlv@ == fresh(manifest_flags(caps), manifest_kinds(caps)),
{
    if Caps::EncKw.present(caps) {
        if Caps::RSA2048.present(caps) {
            TlvGen::new_rsa_kw()
        } else if Caps::EcdsaP256.present(caps) {
            TlvGen::new_ecdsa_kw()
        } else {
            TlvGen::new_enc_kw()
        }
    } else if Caps::EncRsa.present(caps) {
        if Caps::RSA2048.present(caps) {
            TlvGen::new_sig_enc_rsa()
        } else {
            TlvGen::new_enc_rsa()
        }
    } else if Caps::EncEc256.present(caps) {
        if Caps::EcdsaP256.present(caps) {
            TlvGen::new_ecdsa_ecies_p256()
        } else {
            TlvGen::new_ecies_p256()
        }
    } else if Caps::EncX25519.present(caps) {
        if Caps::Ed25519.present(caps) {
            TlvGen::new_ed25519_ecies_x25519()
        } else {
            TlvGen::new_ecies_x25519()
        }
    } else {
        // The non-encrypted configuration.
        if Caps::RSA2048.present(caps) {
            TlvGen::new_rsa_pss()
        } else if Caps::RSA3072.present(caps) {
            TlvGen::new_rsa3072_pss()
        } else if Caps::EcdsaP256.present(caps) {
            TlvGen::new_ecdsa()
        } else if Caps::Ed25519.present(caps) {
            TlvGen::new_ed25519()
        } else {
            TlvGen::new_hash_only()
        }
    }
}

/// The payload of an image of `len` bytes for offset `offset`: pseudo-random
/// bytes, with `banner` written over their beginning.
pub open spec fn payload_bytes(len: usize, offset: usize, banner: Seq<u8>) -> Seq<u8> {
    banner + splat_bytes(len, offset).skip(banner.len() as int)
}

/// The payload of an image of `len` bytes for offset `offset`, with `banner`
/// at its beginning to make it easier to see what it is; nothing where the
/// image is too small for the banner.
pub fn image_payload(len: usize, offset: usize, banner: &[u8]) -> (payload: Option<Vec<u8>>)
    ensures
        payload is Some <==> banner@.len() <= len,
        payload matches Some(p) ==> p@ == payload_bytes(len, offset, banner@) && p@.len() == len,
{
    if banner.len() > len {
        return None;
    }
    // The core of the image itself is just pseudorandom data.
    let noise = splat(len, offset);
    let mut payload: Vec<u8> = Vec::new();
    push_all(&mut payload, banner);
    push_all(&mut payload, vstd::slice::slice_subrange(noise.as_slice(), banner.len(), len));
    assert(payload@ =~= payload_bytes(len, offset, banner@));
    Some(payload)
}

/// The two lines of text that mark the beginning of an image's payload, to
/// make it easier to see what it is: the offset, the device and the slot it
/// was made for, and its version.
pub open spec fn banner_chars(slot: SlotInfo, version: ImageVersion) -> Seq<char> {
    "offset: 0x"@ + hex_digits(slot.base_off as nat) + ", dev_id: 0x"@ + hex_digits(
        slot.dev_id as nat,
    ) + ", slot_info: SlotInfo { base_off: "@ + dec_digits(slot.base_off as nat)
        + ", trailer_off: "@ + dec_digits(slot.trailer_off as nat) + ", len: "@ + dec_digits(
        slot.len as nat,
    ) + ", index: "@ + dec_digits(slot.index as nat) + ", dev_id: "@ + dec_digits(
        slot.dev_id as nat,
    ) + " }\nversion: ImageVersion { major: "@ + dec_digits(version.major as nat) + ", minor: "@
        + dec_digits(version.minor as nat) + ", revision: "@ + dec_digits(version.revision as nat)
        + ", build_num: "@ + dec_digits(version.build_num as nat) + " }\n"@
}

/// The bytes of that text.
pub open spec fn banner_bytes(slot: SlotInfo, version: ImageVersion) -> Seq<u8> {
    vstd::utf8::encode_utf8(banner_chars(slot, version))
}

/// The text that marks the beginning of the payload of an image.
pub fn banner(slot: &SlotInfo, version: &ImageVersion) -> (text: String)
    ensures
        text@ == banner_chars(*slot, *version),
{
    let mut text = "offset: 0x".to_owned();
    push_hex(&mut text, slot.base_off);
    text.append(", dev_id: 0x");
    push_hex(&mut text, slot.dev_id as usize);
    text.append(", slot_info: SlotInfo { base_off: ");
    push_dec(&mut text, slot.base_off);
    text.append(", trailer_off: ");
    push_dec(&mut text, slot.trailer_off);
    text.append(", len: ");
    push_dec(&mut text, slot.len);
    text.append(", index: ");
    push_dec(&mut text, slot.index);
    text.append(", dev_id: ");
    push_dec(&mut text, slot.dev_id as usize);
    text.append(" }\nversion: ImageVersion { major: ");
    push_dec(&mut text, version.major as usize);
    text.append(", minor: ");
    push_dec(&mut text, version.minor as usize);
    text.append(", revision: ");
    push_dec(&mut text, version.revision as usize);
    text.append(", build_num: ");
    push_dec(&mut text, version.build_num as usize);
    text.append(" }\n");
    text
}

/// What an image is made of.
pub struct ImagePlan {
    /// Its header.
    pub header: ImageHeader,
    /// Its payload.
    pub payload: Seq<u8>,
    /// The key that encrypts the payload, where it is encrypted.
    pub enc_key: Seq<u8>,
    /// That key as it was wrapped outside, where it was.
    pub wrapped_key: Seq<u8>,
    /// The chance-made parts of its manifest.
    pub seals: Seals,
}

impl ImagePlan {
    /// The state of the generator that made the manifest: a generator with
    /// the flags and kinds of `start`, given the dependencies, the header and
    /// then the payload, the key, and the order to corrupt.
    pub open spec fn sealed(self, start: TlvState, deps: Seq<Dependency>, bad_sig: bool) -> TlvState {
        TlvState {
            payload: header_bytes(self.header) + self.payload,
            dependencies: deps,
            enc_key: self.enc_key,
            wrapped_key: self.wrapped_key,
            gen_corrupted: bad_sig,
            ..start
        }
    }

    /// `image` is the image of this plan: an image of `len` bytes for slot
    /// `slot` at version `version` that declares `dependencies`, with the
    /// manifest of a generator that started as `start`, padded with `fill`
    /// to a multiple of `align`.
    pub open spec fn makes(
        self,
        image: ImageData,
        slot: SlotInfo,
        start: TlvState,
        dependencies: Seq<Dependency>,
        version: ImageVersion,
        len: usize,
        bad_sig: bool,
        keys: KeyRing,
        align: nat,
        fill: u8,
    ) -> bool {
        let sealed = self.sealed(start, dependencies, bad_sig);
        let manifest = sealed.manifest(keys, self.seals);
        &&& sealed.sealed_by(self.seals)
        &&& self.header == image_header(sealed, len, version)
        &&& self.payload == payload_bytes(len, slot.base_off, banner_bytes(slot, version))
        &&& self.payload.len() == len
        &&& image.plain@ == padded(self.plain(manifest), align, fill)
        &&& encrypted_flag(start.flags) ==> image.cipher is Some && image.cipher.unwrap()@
            == padded(self.cipher(manifest), align, fill)
        &&& !encrypted_flag(start.flags) ==> image.cipher is None
    }

    /// The image in the clear: header, payload, manifest.
    pub open spec fn plain(self, manifest: Seq<u8>) -> Seq<u8> {
        header_bytes(self.header) + self.payload + manifest
    }

    /// The image with the payload encrypted.
    pub open spec fn cipher(self, manifest: Seq<u8>) -> Seq<u8> {
        header_bytes(self.header) + aes128_ctr_stream(
            self.enc_key,
            zero_bytes(16),
            self.payload,
        ).unwrap() + manifest
    }
}

/// The dependencies on image `other` at the versions `versions`.
pub open spec fn dependencies_on(other: u8, versions: Seq<ImageVersion>) -> Seq<Dependency> {
    Seq::new(versions.len(), |i: int| Dependency { id: other, version: versions[i] })
}

/// The header of an image of `len` bytes with version `version`, whose
/// manifest comes from a generator in state `tlv`.
pub open spec fn image_header(tlv: TlvState, len: usize, version: ImageVersion) -> ImageHeader {
    ImageHeader {
        magic: IMAGE_MAGIC,
        load_addr: 0,
        hdr_size: HDR_SIZE as u16,
        protect_tlv_size: crate::tlv::protected_size(tlv.dependencies.len()) as u16,
        img_size: len as u32,
        flags: tlv.flags,
        ver: version,
        pad: 0,
    }
}

/// The encrypted flag is among `flags`.
pub open spec fn encrypted_flag(flags: u32) -> bool {
    flags & TlvFlags::ENCRYPTED.bits() == TlvFlags::ENCRYPTED.bits()
}

/// The length in flash of an image of `len` payload bytes that declares
/// `count` dependencies and is neither signed nor encrypted: the header,
/// the payload and the manifest, which holds the protected block and, with
/// `hashed`, the hash; padded to a multiple of `align`.
pub open spec fn bare_image_len(hashed: bool, count: nat, len: nat, align: nat) -> nat {
    let raw = (HDR_SIZE + len + crate::tlv::protected_size(count) + 4 + (if hashed {
        36nat
    } else {
        0nat
    })) as nat;
    raw + padding(raw, align)
}

/// An encryption key for an image, with the same key as it was wrapped for
/// the device by whoever made it.
pub struct WrappedKey {
    pub key: Vec<u8>,
    pub wrapped: Vec<u8>,
}

/// Builds the image for slot `slot`: a header, a payload of `len`
/// pseudo-random bytes, and the manifest that `tlv` makes of them, in the
/// clear and, where the generator's flags ask for it, with the payload
/// encrypted. Both are padded with `fill` to a multiple of `align`.
///
/// Where the generator wraps the image key itself, a fresh key is drawn;
/// where the key is wrapped outside (RSA and AES key wrap), `wrapped` gives
/// the key and its wrapped form.
#[verifier::rlimit(30)]
pub fn build_image<D: Depender>(
    slot: &SlotInfo,
    len: usize,
    deps: &D,
    bad_sig: bool,
    tlv: TlvGen,
    keys: &KeyRing,
    wrapped: &Option<WrappedKey>,
    align: usize,
    fill: u8,
) -> (built: Result<ImageData, Abort>)
    requires
        tlv@ == fresh(tlv@.flags, tlv@.kinds),
        deps.versioned(slot.index),
        deps.dependable(slot.index),
        deps.deps_of(slot.index).len() <= MAX_DEPENDENCIES,
        align > 0,
        HDR_SIZE + len + 0x20000 + align <= usize::MAX,
    ensures
        (built matches Err(e) && e == Abort::ImageTooSmall) <==> len < banner_bytes(
            *slot,
            deps.version_of(slot.index),
        ).len(),
        built matches Err(e) ==> e == Abort::ImageTooSmall || e == Abort::NoWrappedKey || e
            == Abort::Encryption || e is Manifest,
        tlv@.keyless() && !encrypted_flag(tlv@.flags) && !tlv@.has(TlvKinds::ENCRSA2048)
            && !tlv@.has(TlvKinds::ENCKW128) ==> (built is Ok <==> banner_bytes(
            *slot,
            deps.version_of(slot.index),
        ).len() <= len),
        built matches Ok(image) ==> exists|plan: ImagePlan| #[trigger]
            plan.makes(
                image,
                *slot,
                tlv@,
                dependencies_on(deps.other(), deps.deps_of(slot.index)),
                deps.version_of(slot.index),
                len,
                bad_sig,
                *keys,
                align as nat,
                fill,
            ),
        built matches Ok(image) ==> (tlv@.bare() && !encrypted_flag(tlv@.flags) ==> image.cipher
            is None && image.plain@.len() == bare_image_len(
            tlv@.has(TlvKinds::SHA256),
            deps.deps_of(slot.index).len(),
            len as nat,
            align as nat,
        )),
{
    let mut tlv = tlv;
    let ghost start = tlv@;
    let offset = slot.base_off;
    declare_dependencies(&mut tlv, deps, slot);
    let ghost dependencies = dependencies_on(deps.other(), deps.deps_of(slot.index));
    // Generate a boot header.  Note that the size doesn't include the header.
    let version = deps.my_version(offset, slot.index);
    let header = ImageHeader {
        magic: tlv.get_magic(),
        load_addr: 0,
        hdr_size: HDR_SIZE as u16,
        protect_tlv_size: tlv.protect_size(),
        img_size: #[verifier::truncate] (len as u32),
        flags: tlv.get_flags(),
        ver: version,
        pad: 0,
    };
    let b_header = header.as_raw();
    tlv.add_bytes(b_header.as_slice());
    // Add some information at the start of the payload to make it easier
    // to see what it is.  This will fail if the image itself is too small.
    let text = banner(slot, &version);
    let b_img = match image_payload(len, offset, text.as_str().as_bytes()) {
        Some(payload) => payload,
        None => {
            return Err(Abort::ImageTooSmall);
        },
    };
    // TLV signatures work over plain image
    tlv.add_bytes(b_img.as_slice());
    assert(tlv@.payload =~= header_bytes(header) + b_img@);
    // Generate encrypted images
    let flag = TlvFlags::ENCRYPTED.value();
    let is_encrypted = (tlv.get_flags() & flag) == flag;
    let b_encimg = if is_encrypted {
        Some(encrypt_payload(&mut tlv, wrapped, &b_img)?)
    } else {
        None
    };
    // Build the TLV itself.
    if bad_sig {
        tlv.corrupt_sig();
    }
    let b_tlv = seal(&tlv, keys)?;
    let ghost seals = choose|seals: Seals| #[trigger]
        tlv@.sealed_by(seals) && b_tlv@ == tlv@.manifest(*keys, seals);
    let ghost plan = ImagePlan {
        header,
        payload: b_img@,
        enc_key: tlv@.enc_key,
        wrapped_key: tlv@.wrapped_key,
        seals,
    };
    assert(tlv@ == plan.sealed(start, dependencies, bad_sig));
    let buf = assemble(&b_header, &b_img, &b_tlv, align, fill);
    let cipher = match b_encimg {
        Some(encimg) => Some(assemble(&b_header, &encimg, &b_tlv, align, fill)),
        None => None,
    };
    let image = ImageData { plain: buf, cipher };
    assert(plan.makes(
        image,
        *slot,
        start,
        dependencies,
        deps.version_of(slot.index),
        len,
        bad_sig,
        *keys,
        align as nat,
        fill,
    ));
    Ok(image)
}

/// Gives `tlv` the dependencies that `deps` declares for slot `slot`.
fn declare_dependencies<D: Depender>(tlv: &mut TlvGen, deps: &D, slot: &SlotInfo)
    requires
        old(tlv)@ == fresh(old(tlv)@.flags, old(tlv)@.kinds),
        deps.dependable(slot.index),
        deps.deps_of(slot.index).len() <= MAX_DEPENDENCIES,
    ensures
        final(tlv)@ == (TlvState {
            dependencies: dependencies_on(deps.other(), deps.deps_of(slot.index)),
            ..old(tlv)@
        }),
{
    let versions = deps.my_deps(slot.base_off, slot.index);
    assert(dependencies_on(deps.other(), versions@.take(0)) =~= Seq::<Dependency>::empty());
    let mut i: usize = 0;
    while i < versions.len()
        invariant
            i <= versions.len(),
            versions@ == deps.deps_of(slot.index),
            versions@.len() <= MAX_DEPENDENCIES,
            deps.dependable(slot.index),
            tlv@ == (TlvState {
                dependencies: dependencies_on(deps.other(), versions@.take(i as int)),
                ..old(tlv)@
            }),
        decreases versions.len() - i,
    {
        let other = deps.other_id();
        tlv.add_dependency(other, &versions[i]);
        assert(tlv@.dependencies =~= dependencies_on(deps.other(), versions@.take(i + 1)));
        i = i + 1;
    }
    assert(versions@.take(versions@.len() as int) =~= versions@);
}

/// Gives `tlv` the key that encrypts the image, the one in `wrapped` where
/// its kinds have the key wrapped outside and a fresh one where they do not,
/// and encrypts `payload` with it.
fn encrypt_payload(tlv: &mut TlvGen, wrapped: &Option<WrappedKey>, payload: &Vec<u8>) -> (done:
    Result<Vec<u8>, Abort>)
    ensures
        final(tlv)@ == (TlvState {
            enc_key: final(tlv)@.enc_key,
            wrapped_key: final(tlv)@.wrapped_key,
            ..old(tlv)@
        }),
        done matches Ok(cipher) ==> aes128_ctr_stream(final(tlv)@.enc_key, zero_bytes(16), payload@)
            == Some(cipher@) && cipher@.len() == payload@.len(),
        done matches Err(e) ==> e == Abort::NoWrappedKey || e == Abort::Encryption,
{
    if tlv.has_kind(TlvKinds::ENCRSA2048) || tlv.has_kind(TlvKinds::ENCKW128) {
        match wrapped {
            Some(given) => {
                tlv.set_enc_key(given.key.clone(), given.wrapped.clone());
            },
            None => {
                return Err(Abort::NoWrappedKey);
            },
        }
    } else if !tlv.generate_enc_key() {
        return Err(Abort::Encryption);
    }
    if !tlv.has_enc_key() {
        return Err(Abort::Encryption);
    }
    let enc_key = tlv.get_enc_key();
    let nonce: [u8; 16] = [0, 0, 0, 0, 0, 0, 0, 0, 0, 0, 0, 0, 0, 0, 0, 0];
    assert(nonce@ =~= zero_bytes(16));
    match aes128_ctr(enc_key.as_slice(), nonce.as_slice(), payload.as_slice()) {
        Some(cipher) => Ok(cipher),
        None => Err(Abort::Encryption),
    }
}

/// The manifest that `tlv` makes, where it is ready to make one.
fn seal(tlv: &TlvGen, keys: &KeyRing) -> (made: Result<Vec<u8>, Abort>)
    ensures
        tlv@.ready() && tlv@.keyless() ==> made is Ok,
        made matches Err(e) ==> e == Abort::NoWrappedKey || e is Manifest,
        made matches Ok(bytes) ==> bytes@.len() < 0x20000 && exists|seals: Seals| #[trigger]
            tlv@.sealed_by(seals) && bytes@ == tlv@.manifest(*keys, seals),
        made matches Ok(bytes) ==> (tlv@.bare() ==> bytes@.len() == tlv@.bare_len()),
{
    if !tlv.is_ready() {
        return Err(Abort::NoWrappedKey);
    }
    match tlv.make_tlv(keys) {
        Ok(manifest) => Ok(manifest),
        Err(e) => Err(Abort::Manifest(e)),
    }
}

/// An image as it goes to flash: header, payload and manifest, padded with
/// `fill` to a multiple of `align`.
pub fn assemble(
    header: &Vec<u8>,
    payload: &Vec<u8>,
    manifest: &Vec<u8>,
    align: usize,
    fill: u8,
) -> (image: Vec<u8>)
    requires
        align > 0,
        header@.len() + payload@.len() + manifest@.len() + align <= usize::MAX,
    ensures
        image@ == padded(header@ + payload@ + manifest@, align as nat, fill),
{
    let mut buf: Vec<u8> = Vec::new();
    push_all(&mut buf, header.as_slice());
    push_all(&mut buf, payload.as_slice());
    push_all(&mut buf, manifest.as_slice());
    // Pad the buffer to a multiple of the flash alignment.
    pad_to(&mut buf, align, fill);
    buf
}

} // verus!
