//! Putting images, trailer marks and partition tables into the simulated
//! devices, and looking at what the bootloader left there.

use crate::area::{AreaDesc, FlashArea, FlashId};
use crate::bytes::{le32, push_all, push_le32};
use crate::caps::{BootInfo, Caps};
use crate::depends::Depender;
use crate::flash::FlashState;
use crate::image::{
    all_wf, banner_bytes, bare_image_len, build_image, dependencies_on, encrypted_flag, make_tlv,
    manifest_flags, manifest_kinds, only_changed, pad_to, padded, Abort, ImageData, ImagePlan,
    ImageVersion, SimMultiFlash, SlotInfo, WrappedKey, HDR_SIZE,
};
use crate::multiflash::{device_params, erase_at, read_at, same_bytes, write_at, write_ends};
use crate::tlv::{fresh, Dependency, KeyRing, TlvKinds, MAX_DEPENDENCIES};
use vstd::prelude::*;

verus! {

broadcast use vstd::std_specs::hash::group_hash_axioms;

/// The magic value that marks the end of a slot's trailer.
pub open spec fn boot_magic() -> Seq<u8> {
    seq![
        0x77u8,
        0xc2u8,
        0x95u8,
        0xf3u8,
        0x60u8,
        0xd2u8,
        0xefu8,
        0x7fu8,
        0x35u8,
        0x52u8,
        0x50u8,
        0x0fu8,
        0x2cu8,
        0xb6u8,
        0x79u8,
        0x80u8,
    ]
}

/// The magic value that marks the end of a slot's trailer.
pub fn magic_bytes() -> (bytes: Vec<u8>)
    ensures
        bytes@ == boot_magic(),
{
    let fixed: [u8; 16] = [
        0x77,
        0xc2,
        0x95,
        0xf3,
        0x60,
        0xd2,
        0xef,
        0x7f,
        0x35,
        0x52,
        0x50,
        0x0f,
        0x2c,
        0xb6,
        0x79,
        0x80,
    ];
    let mut bytes: Vec<u8> = Vec::new();
    push_all(&mut bytes, fixed.as_slice());
    assert(bytes@ =~= boot_magic());
    bytes
}

/// A trailer field holds its good or set value.
pub const BOOT_SET: u8 = 1;

/// A trailer field is erased.
pub const BOOT_UNSET: u8 = 3;

/// The magic is expected to be good.
pub fn boot_magic_good() -> (v: Option<u8>)
    ensures
        v == Some(BOOT_SET),
{
    Some(BOOT_SET)
}

/// The magic is expected to be unset.
pub fn boot_magic_unset() -> (v: Option<u8>)
    ensures
        v == Some(BOOT_UNSET),
{
    Some(BOOT_UNSET)
}

/// The flag is expected to be set.
pub fn boot_flag_set() -> (v: Option<u8>)
    ensures
        v == Some(BOOT_SET),
{
    Some(BOOT_SET)
}

/// The flag is expected to be unset.
pub fn boot_flag_unset() -> (v: Option<u8>)
    ensures
        v == Some(BOOT_UNSET),
{
    Some(BOOT_UNSET)
}

/// The order in which the two forms of `image` go to the slot with index
/// `index`, as (first, last): what is written last stays. In the primary
/// slot the encrypted form goes first and the plain form stays; in the other
/// the plain form goes first and the encrypted form stays. An image that has
/// no encrypted form is written once.
pub open spec fn stays(image: ImageData, index: usize) -> Seq<u8> {
    if index != 0 && image.cipher is Some {
        image.cipher.unwrap()@
    } else {
        image.plain@
    }
}

/// The device in state `after` is of the kind of the one in state `before`:
/// it has its length, its write alignment and its erased value.
pub open spec fn same_kind(before: FlashState, after: FlashState) -> bool {
    &&& after.data.len() == before.data.len()
    &&& after.align == before.align
    &&& after.erased_val == before.erased_val
}

/// Writes `image` into slot `slot` and reads it back.
///
/// Since images are always non-encrypted in the primary slot, we first write
/// an encrypted image, re-read to use for verification, erase + flash
/// un-encrypted. In the secondary slot the image is written un-encrypted,
/// and if encryption is requested, it follows an erase + flash encrypted.
pub fn store_image(flash: &mut SimMultiFlash, slot: &SlotInfo, image: &ImageData) -> (stored:
    Result<ImageData, Abort>)
    requires
        all_wf(old(flash)@),
    ensures
        all_wf(final(flash)@),
        only_changed(old(flash)@, final(flash)@, slot.dev_id),
        stored == Err::<ImageData, Abort>(Abort::NoDevice) <==> !old(flash)@.contains_key(
            slot.dev_id,
        ),
        stored matches Err(e) ==> e == Abort::NoDevice || e == Abort::OutOfBounds || e
            == Abort::SimulatedFail || e is Fault,
        image.cipher is None && old(flash)@.contains_key(slot.dev_id) ==> write_ends(
            old(flash)@[slot.dev_id]@,
            slot.base_off as int,
            image.plain@.len() as int,
            stored,
        ),
        old(flash)@.contains_key(slot.dev_id) ==> same_kind(
            old(flash)@[slot.dev_id]@,
            final(flash)@[slot.dev_id]@,
        ),
        image.cipher is None && old(flash)@.contains_key(slot.dev_id) ==> final(flash)@[slot.dev_id]@
            == (if stored is Ok {
            old(flash)@[slot.dev_id]@.written(slot.base_off as int, image.plain@)
        } else {
            old(flash)@[slot.dev_id]@
        }),
        stored matches Ok(copy) ==> {
            &&& copy.plain@ == image.plain@
            &&& copy.cipher is Some <==> image.cipher is Some
            &&& image.cipher is Some ==> copy.cipher.unwrap()@ == image.cipher.unwrap()@
            &&& final(flash)@[slot.dev_id]@.can_read(
                slot.base_off as int,
                stays(*image, slot.index).len() as int,
            )
            &&& final(flash)@[slot.dev_id]@.data.subrange(
                slot.base_off as int,
                slot.base_off + stays(*image, slot.index).len(),
            ) == stays(*image, slot.index)
        },
{
    let offset = slot.base_off;
    let dev_id = slot.dev_id;
    if slot.index == 0 {
        let enc_copy = match &image.cipher {
            Some(encbuf) => {
                write_at(flash, dev_id, offset, encbuf.as_slice())?;
                let enc = read_at(flash, dev_id, offset, encbuf.len())?;
                erase_at(flash, dev_id, offset, slot.len)?;
                assert(enc@ =~= encbuf@);
                Some(enc)
            },
            None => None,
        };
        write_at(flash, dev_id, offset, image.plain.as_slice())?;
        let copy = read_at(flash, dev_id, offset, image.plain.len())?;
        assert(copy@ =~= image.plain@);
        Ok(ImageData { plain: copy, cipher: enc_copy })
    } else {
        write_at(flash, dev_id, offset, image.plain.as_slice())?;
        let copy = read_at(flash, dev_id, offset, image.plain.len())?;
        assert(copy@ =~= image.plain@);
        let enc_copy = match &image.cipher {
            Some(encbuf) => {
                erase_at(flash, dev_id, offset, slot.len)?;
                write_at(flash, dev_id, offset, encbuf.as_slice())?;
                let enc = read_at(flash, dev_id, offset, encbuf.len())?;
                assert(enc@ =~= encbuf@);
                Some(enc)
            },
            None => None,
        };
        Ok(ImageData { plain: copy, cipher: enc_copy })
    }
}

/// A bootloader with the capabilities `caps` takes images that are neither
/// signed nor encrypted.
pub open spec fn takes_bare(caps: u32) -> bool {
    fresh(manifest_flags(caps), manifest_kinds(caps)).bare() && !encrypted_flag(
        manifest_flags(caps),
    )
}

/// The length in flash of an image of `len` payload bytes with `count`
/// dependencies for a bootloader that takes bare images, on a device of
/// write alignment `align`.
pub open spec fn bare_span(caps: u32, count: nat, len: usize, align: usize) -> nat {
    bare_image_len(manifest_kinds(caps).contains(TlvKinds::SHA256), count, len as nat, align as nat)
}

/// An image of `len` payload bytes can be made for slot `slot` on a device
/// in state `dev`: the device's write alignment is not beyond what an image
/// is padded to, and the payload has room for the text at its start.
pub open spec fn image_makeable(dev: FlashState, slot: SlotInfo, version: ImageVersion, len: usize)
    -> bool {
    dev.align <= 0x1000_0000 && banner_bytes(slot, version).len() <= len
}

/// The installation of a bare image of `len` payload bytes, with `count`
/// dependencies and version `version`, in slot `slot`, on a device that was
/// in state `before` and is in state `after`, can have ended as `installed`.
///
/// An image that cannot be made is refused; one that can be made ends as
/// the write of all its bytes at the start of the slot ends. What is
/// installed has nothing encrypted and is what the device has got; after an
/// error the device is as before.
pub open spec fn bare_install_ends(
    before: FlashState,
    after: FlashState,
    slot: SlotInfo,
    version: ImageVersion,
    count: nat,
    len: usize,
    caps: u32,
    installed: Result<ImageData, Abort>,
) -> bool {
    let span = bare_span(caps, count, len, before.align);
    &&& before.align > 0x1000_0000 ==> installed == Err::<ImageData, Abort>(Abort::Alignment)
    &&& before.align <= 0x1000_0000 && banner_bytes(slot, version).len() > len
        ==> installed == Err::<ImageData, Abort>(Abort::ImageTooSmall)
    &&& image_makeable(before, slot, version, len) ==> write_ends(
        before,
        slot.base_off as int,
        span as int,
        installed,
    )
    &&& installed matches Ok(image) ==> image.cipher is None && image.plain@.len() == span && after
        == before.written(slot.base_off as int, image.plain@)
    &&& installed is Err ==> after == before
}

/// `image` is an image of `len` payload bytes for slot `slot`, with the
/// version `version` and the dependencies `dependencies`, as it is made for
/// a bootloader with the capabilities `caps`, with the keys `keys`, for a
/// device with write alignment `align` and erased value `erased`: some
/// plan makes it.
#[verifier::opaque]
pub open spec fn image_made(
    image: ImageData,
    slot: SlotInfo,
    caps: u32,
    dependencies: Seq<Dependency>,
    version: ImageVersion,
    len: usize,
    bad_sig: bool,
    keys: KeyRing,
    align: usize,
    erased: u8,
) -> bool {
    exists|plan: ImagePlan| #[trigger]
        plan.makes(
            image,
            slot,
            fresh(manifest_flags(caps), manifest_kinds(caps)),
            dependencies,
            version,
            len,
            bad_sig,
            keys,
            align as nat,
            erased,
        )
}

/// Install a "program" into the given image.  This fakes the image header, or at least all of the
/// fields used by the given code.  Returns a copy of the image that was written.
///
/// Where the bootloader takes images that are neither signed nor encrypted,
/// nothing outside decides: see `bare_install_ends`.
pub fn install_image<D: Depender>(
    flash: &mut SimMultiFlash,
    slot: &SlotInfo,
    len: usize,
    deps: &D,
    bad_sig: bool,
    info: &BootInfo,
    keys: &KeyRing,
    wrapped: &Option<WrappedKey>,
) -> (installed: Result<ImageData, Abort>)
    requires
        all_wf(old(flash)@),
        !Caps::EcdsaP224.in_set(info.caps),
        deps.versioned(slot.index),
        deps.dependable(slot.index),
        deps.deps_of(slot.index).len() <= MAX_DEPENDENCIES,
        len <= 0x4000_0000,
    ensures
        all_wf(final(flash)@),
        only_changed(old(flash)@, final(flash)@, slot.dev_id),
        installed == Err::<ImageData, Abort>(Abort::NoDevice) <==> !old(flash)@.contains_key(
            slot.dev_id,
        ),
        installed == Err::<ImageData, Abort>(Abort::Alignment) <==> old(flash)@.contains_key(
            slot.dev_id,
        ) && old(flash)@[slot.dev_id]@.align > 0x1000_0000,
        installed == Err::<ImageData, Abort>(Abort::ImageTooSmall) <==> old(flash)@.contains_key(
            slot.dev_id,
        ) && old(flash)@[slot.dev_id]@.align <= 0x1000_0000 && banner_bytes(
            *slot,
            deps.version_of(slot.index),
        ).len() > len,
        old(flash)@.contains_key(slot.dev_id) ==> same_kind(
            old(flash)@[slot.dev_id]@,
            final(flash)@[slot.dev_id]@,
        ),
        takes_bare(info.caps) && old(flash)@.contains_key(slot.dev_id) ==> bare_install_ends(
            old(flash)@[slot.dev_id]@,
            final(flash)@[slot.dev_id]@,
            *slot,
            deps.version_of(slot.index),
            deps.deps_of(slot.index).len(),
            len,
            info.caps,
            installed,
        ),
        installed matches Ok(image) ==> image_made(
            image,
            *slot,
            info.caps,
            dependencies_on(deps.other(), deps.deps_of(slot.index)),
            deps.version_of(slot.index),
            len,
            bad_sig,
            *keys,
            old(flash)@[slot.dev_id]@.align,
            old(flash)@[slot.dev_id]@.erased_val,
        ),
        installed matches Ok(image) ==> {
            &&& final(flash)@[slot.dev_id]@.can_read(
                slot.base_off as int,
                stays(image, slot.index).len() as int,
            )
            &&& final(flash)@[slot.dev_id]@.data.subrange(
                slot.base_off as int,
                slot.base_off + stays(image, slot.index).len(),
            ) == stays(image, slot.index)
        },
{
    let (align, erased) = device_params(flash, slot.dev_id)?;
    if align > 0x1000_0000 {
        return Err(Abort::Alignment);
    }
    let tlv = make_tlv(info.caps);
    let built = build_image(slot, len, deps, bad_sig, tlv, keys, wrapped, align, erased)?;
    let ghost plan = choose|plan: ImagePlan| #[trigger]
        plan.makes(
            built,
            *slot,
            fresh(manifest_flags(info.caps), manifest_kinds(info.caps)),
            dependencies_on(deps.other(), deps.deps_of(slot.index)),
            deps.version_of(slot.index),
            len,
            bad_sig,
            *keys,
            align as nat,
            erased,
        );
    let stored = store_image(flash, slot, &built)?;
    assert(plan.makes(
        stored,
        *slot,
        fresh(manifest_flags(info.caps), manifest_kinds(info.caps)),
        dependencies_on(deps.other(), deps.deps_of(slot.index)),
        deps.version_of(slot.index),
        len,
        bad_sig,
        *keys,
        align as nat,
        erased,
    ));
    assert(image_made(
        stored,
        *slot,
        info.caps,
        dependencies_on(deps.other(), deps.deps_of(slot.index)),
        deps.version_of(slot.index),
        len,
        bad_sig,
        *keys,
        align,
        erased,
    )) by {
        reveal(image_made);
    }
    Ok(stored)
}

/// Whether the image expected in slot `slot` is there: for a bootloader
/// that encrypts, the encrypted form in the upgrade slot, and the plain form
/// everywhere else.
pub fn verify_image(flash: &SimMultiFlash, slot: &SlotInfo, images: &ImageData, info: &BootInfo)
    -> (found: Result<bool, Abort>)
    requires
        all_wf(flash@),
        images.findable(info.encrypts(), slot.index),
    ensures
        match found {
            Ok(same) => {
                let want = images.expected(info.encrypts(), slot.index);
                &&& flash@.contains_key(slot.dev_id)
                &&& flash@[slot.dev_id]@.can_read(slot.base_off as int, want.len() as int)
                &&& same == (flash@[slot.dev_id]@.data.subrange(
                    slot.base_off as int,
                    slot.base_off + want.len(),
                ) == want)
            },
            Err(e) => if flash@.contains_key(slot.dev_id) {
                e == Abort::OutOfBounds && !flash@[slot.dev_id]@.can_read(
                    slot.base_off as int,
                    images.expected(info.encrypts(), slot.index).len() as int,
                )
            } else {
                e == Abort::NoDevice
            },
        },
{
    let image = images.find(slot.index, info);
    let copy = read_at(flash, slot.dev_id, slot.base_off, image.len())?;
    Ok(same_bytes(image.as_slice(), copy.as_slice()))
}

/// The part of a trailer that the tests look at: where it begins and how
/// long it is, for a slot whose `trailer_off` is `trailer_off`.
pub open spec fn trailer_window(trailer_off: usize, info: BootInfo) -> (int, int) {
    (trailer_off + info.max_align, info.magic_sz + info.max_align * 3)
}

/// What is expected of a field is met by the byte `found`: nothing is
/// expected, or the field is expected set and holds 1, or it is expected
/// unset and holds the erased value.
pub open spec fn flag_matches(want: Option<u8>, found: u8, erased: u8) -> bool {
    match want {
        Some(v) => !((v == BOOT_SET && found != v) || (v == BOOT_UNSET && found != erased)),
        None => true,
    }
}

/// What is expected of the magic is met by the bytes `found`: nothing is
/// expected, or it is expected good and the bytes are the magic value, or it
/// is expected unset and the bytes are sixteen erased ones.
pub open spec fn magic_matches(want: Option<u8>, found: Seq<u8>, erased: u8) -> bool {
    match want {
        Some(v) => if v == BOOT_SET {
            found == boot_magic()
        } else if v == BOOT_UNSET {
            found == Seq::new(16, |i: int| erased)
        } else {
            true
        },
        None => true,
    }
}

/// The trailer bytes `window` meet what is expected: the magic from byte
/// 24, the image-ok flag at byte 16, the copy-done flag at byte 8.
pub open spec fn trailer_matches(
    window: Seq<u8>,
    erased: u8,
    magic: Option<u8>,
    image_ok: Option<u8>,
    copy_done: Option<u8>,
) -> bool {
    &&& magic_matches(magic, window.skip(24), erased)
    &&& flag_matches(image_ok, window[16], erased)
    &&& flag_matches(copy_done, window[8], erased)
}

/// Whether the trailer of slot `slot` holds what is expected of its magic
/// and its two flags. A bootloader that overwrites keeps no such trailer:
/// with it everything is as expected.
pub fn verify_trailer(
    flash: &SimMultiFlash,
    slot: &SlotInfo,
    magic: Option<u8>,
    image_ok: Option<u8>,
    copy_done: Option<u8>,
    info: &BootInfo,
) -> (found: Result<bool, Abort>)
    requires
        all_wf(flash@),
        info.wf(),
    ensures
        Caps::OverwriteUpgrade.in_set(info.caps) ==> found == Ok::<bool, Abort>(true),
        !Caps::OverwriteUpgrade.in_set(info.caps) ==> match found {
            Ok(good) => {
                let (at, len) = trailer_window(slot.trailer_off, *info);
                &&& flash@.contains_key(slot.dev_id)
                &&& flash@[slot.dev_id]@.can_read(at, len)
                &&& good == trailer_matches(
                    flash@[slot.dev_id]@.data.subrange(at, at + len),
                    flash@[slot.dev_id]@.erased_val,
                    magic,
                    image_ok,
                    copy_done,
                )
            },
            Err(e) => if flash@.contains_key(slot.dev_id) {
                e == Abort::OutOfBounds && !flash@[slot.dev_id]@.can_read(
                    trailer_window(slot.trailer_off, *info).0,
                    trailer_window(slot.trailer_off, *info).1,
                )
            } else {
                e == Abort::NoDevice
            },
        },
{
    if Caps::OverwriteUpgrade.present(info.caps) {
        return Ok(true);
    }
    let (_, erased_val) = device_params(flash, slot.dev_id)?;
    let len = info.magic_sz + info.max_align * 3;
    if slot.trailer_off > usize::MAX - info.max_align {
        return Err(Abort::OutOfBounds);
    }
    let offset = slot.trailer_off + info.max_align;
    let copy = read_at(flash, slot.dev_id, offset, len)?;
    let mut failed = false;
    let tail = vstd::slice::slice_subrange(copy.as_slice(), 24, len);
    assert(tail@ =~= copy@.skip(24));
    match magic {
        Some(v) => {
            if v == 1 && !same_bytes(tail, magic_bytes().as_slice()) {
                failed = true;
            } else if v == 3 {
                let expected = vec![erased_val; 16];
                assert(expected@ =~= Seq::new(16, |i: int| erased_val));
                if !same_bytes(tail, expected.as_slice()) {
                    failed = true;
                }
            }
        },
        None => {},
    }
    match image_ok {
        Some(v) => {
            if (v == 1 && copy[16] != v) || (v == 3 && copy[16] != erased_val) {
                failed = true;
            }
        },
        None => {},
    }
    match copy_done {
        Some(v) => {
            if (v == 1 && copy[8] != v) || (v == 3 && copy[8] != erased_val) {
                failed = true;
            }
        },
        None => {},
    }
    Ok(!failed)
}

/// Where the magic goes and what is written to mark an upgrade, on a device
/// with write alignment `align` and erased value `erased`, for a magic that
/// belongs at `offset`: the magic at its place where both are aligned; else
/// one aligned unit that ends with the magic, erased before it. Where the
/// magic does not end such a unit, there is no way to write it.
pub open spec fn upgrade_mark(offset: int, align: int, erased: u8) -> Option<(int, Seq<u8>)> {
    if offset % align != 0 || 16int % align != 0 {
        if align - offset % align == 16 {
            Some((offset - offset % align, Seq::new((offset % align) as nat, |i: int| erased)
                + boot_magic()))
        } else {
            None
        }
    } else {
        Some((offset, boot_magic()))
    }
}

/// Write out the magic so that the loader tries doing an upgrade.
pub fn mark_upgrade(flash: &mut SimMultiFlash, slot: &SlotInfo, info: &BootInfo) -> (done: Result<
    (),
    Abort,
>)
    requires
        all_wf(old(flash)@),
        info.wf(),
    ensures
        all_wf(final(flash)@),
        only_changed(old(flash)@, final(flash)@, slot.dev_id),
        !old(flash)@.contains_key(slot.dev_id) ==> done == Err::<(), Abort>(Abort::NoDevice),
        done is Ok ==> {
            let dev = old(flash)@[slot.dev_id]@;
            let mark = upgrade_mark(
                slot.trailer_off + info.max_align * 4,
                dev.align as int,
                dev.erased_val,
            );
            &&& mark is Some
            &&& final(flash)@[slot.dev_id]@ == dev.written(mark.unwrap().0, mark.unwrap().1)
        },
        done is Err && old(flash)@.contains_key(slot.dev_id) ==> final(flash)@[slot.dev_id]@ == old(
            flash,
        )@[slot.dev_id]@,
        old(flash)@.contains_key(slot.dev_id) ==> {
            let dev = old(flash)@[slot.dev_id]@;
            let at = slot.trailer_off + info.max_align * 4;
            if at > usize::MAX {
                done == Err::<(), Abort>(Abort::OutOfBounds)
            } else {
                match upgrade_mark(at, dev.align as int, dev.erased_val) {
                    None => done == Err::<(), Abort>(Abort::Alignment),
                    Some((to, bytes)) => write_ends(dev, to, bytes.len() as int, done),
                }
            }
        },
{
    let (align, erased) = device_params(flash, slot.dev_id)?;
    if slot.trailer_off > usize::MAX - info.max_align * 4 {
        assert(flash@ =~= old(flash)@);
        return Err(Abort::OutOfBounds);
    }
    let offset = slot.trailer_off + info.max_align * 4;
    let fixed = magic_bytes();
    if offset % align != 0 || 16usize % align != 0 {
        // The write size is larger than the magic value.  Fill a buffer
        // with the erased value, put the MAGIC in it, and write it in its
        // entirety.
        let lead = offset % align;
        assert(lead <= offset) by (nonlinear_arith)
            requires
                lead == offset % align,
                align > 0,
        ;
        if align - lead != 16 {
            assert(flash@ =~= old(flash)@);
            return Err(Abort::Alignment);
        }
        let mut buf = vec![erased; lead];
        push_all(&mut buf, fixed.as_slice());
        assert(buf@ =~= Seq::new(lead as nat, |i: int| erased) + boot_magic());
        write_at(flash, slot.dev_id, offset - lead, buf.as_slice())
    } else {
        write_at(flash, slot.dev_id, offset, fixed.as_slice())
    }
}

/// The mark of a permanent upgrade for a device with write alignment
/// `align` and erased value `erased`: one aligned unit, set in its first
/// byte and erased after.
pub open spec fn permanent_mark(align: int, erased: u8) -> Seq<u8> {
    Seq::new(align as nat, |i: int| if i == 0 {
        BOOT_SET
    } else {
        erased
    })
}

/// Writes the image_ok flag which, guess what, tells the bootloader
/// the this image is ok (not a test, and no revert is to be performed).
///
/// Overwrite mode always is permanent, and only the magic is used in the
/// trailer: nothing is written then.
pub fn mark_permanent_upgrade(flash: &mut SimMultiFlash, slot: &SlotInfo, info: &BootInfo) -> (done:
    Result<(), Abort>)
    requires
        all_wf(old(flash)@),
        info.wf(),
    ensures
        all_wf(final(flash)@),
        only_changed(old(flash)@, final(flash)@, slot.dev_id),
        Caps::OverwriteUpgrade.in_set(info.caps) ==> done is Ok && final(flash)@ == old(flash)@,
        !Caps::OverwriteUpgrade.in_set(info.caps) ==> {
            &&& !old(flash)@.contains_key(slot.dev_id) ==> done == Err::<(), Abort>(Abort::NoDevice)
            &&& done is Ok ==> old(flash)@[slot.dev_id]@.align <= 8 && final(flash)@[slot.dev_id]@
                == old(flash)@[slot.dev_id]@.written(
                slot.trailer_off + info.max_align * 3,
                permanent_mark(
                    old(flash)@[slot.dev_id]@.align as int,
                    old(flash)@[slot.dev_id]@.erased_val,
                ),
            )
            &&& old(flash)@.contains_key(slot.dev_id) ==> {
                let dev = old(flash)@[slot.dev_id]@;
                if dev.align > 8 {
                    done == Err::<(), Abort>(Abort::Alignment)
                } else if slot.trailer_off + info.max_align * 3 > usize::MAX {
                    done == Err::<(), Abort>(Abort::OutOfBounds)
                } else {
                    write_ends(
                        dev,
                        slot.trailer_off + info.max_align * 3,
                        dev.align as int,
                        done,
                    )
                }
            }
        },
{
    if Caps::OverwriteUpgrade.present(info.caps) {
        assert(flash@ =~= old(flash)@);
        return Ok(());
    }
    let (align, erased) = device_params(flash, slot.dev_id)?;
    if align > 8 {
        assert(flash@ =~= old(flash)@);
        return Err(Abort::Alignment);
    }
    if slot.trailer_off > usize::MAX - info.max_align * 3 {
        assert(flash@ =~= old(flash)@);
        return Err(Abort::OutOfBounds);
    }
    let mut ok = vec![erased; align];
    ok[0] = 1u8;
    assert(ok@ =~= permanent_mark(align as int, erased));
    let off = slot.trailer_off + info.max_align * 3;
    write_at(flash, slot.dev_id, off, ok.as_slice())
}

/// The areas among `areas` that lie on device `id`, in order.
pub open spec fn areas_on(areas: Seq<FlashArea>, id: u8) -> Seq<FlashArea>
    decreases areas.len(),
{
    if areas.len() == 0 {
        Seq::empty()
    } else if areas.last().device_id == id {
        areas_on(areas.drop_last(), id).push(areas.last())
    } else {
        areas_on(areas.drop_last(), id)
    }
}

/// No more areas lie on a device than there are.
pub proof fn lemma_areas_on_len(areas: Seq<FlashArea>, id: u8)
    ensures
        areas_on(areas, id).len() <= areas.len(),
    decreases areas.len(),
{
    if areas.len() > 0 {
        lemma_areas_on_len(areas.drop_last(), id);
    }
}

/// The entries of a partition table for the areas `areas`: for each its
/// partition number, its offset, its size and a zero, four bytes each.
pub open spec fn table_entries(areas: Seq<FlashArea>) -> Seq<u8>
    decreases areas.len(),
{
    if areas.len() == 0 {
        Seq::empty()
    } else {
        table_entries(areas.drop_last()) + le32(areas.last().flash_id.index() as u32) + le32(
            areas.last().off,
        ) + le32(areas.last().size) + le32(0)
    }
}

/// The partition table for the areas `areas`: the eight bytes of its
/// magic, the text `mcuboot` and a zero; the number of areas; the entries.
pub open spec fn partition_table(areas: Seq<FlashArea>) -> Seq<u8> {
    seq![0x6du8, 0x63u8, 0x75u8, 0x62u8, 0x6fu8, 0x6fu8, 0x74u8, 0u8] + le32(areas.len() as u32)
        + table_entries(areas)
}

/// Device `id` has a partition at its very start that is not the
/// bootloader's: there is no room for a partition table.
pub open spec fn table_collides(areas: Seq<FlashArea>, id: u8) -> bool {
    exists|i: int|
        0 <= i < areas.len() && (#[trigger] areas[i]).device_id == id && areas[i].off == 0
            && areas[i].flash_id != FlashId::BootLoader
}

/// The partition table of device `id`, made of the areas among `areas` that
/// lie on it; nothing where the table would collide with a partition.
pub fn device_table(areas: &Vec<FlashArea>, id: u8) -> (table: Option<Vec<u8>>)
    requires
        areas@.len() <= u32::MAX,
    ensures
        table is None <==> table_collides(areas@, id),
        table matches Some(bytes) ==> bytes@ == partition_table(areas_on(areas@, id)),
{
    let mut mine: Vec<FlashArea> = Vec::new();
    let mut i: usize = 0;
    while i < areas.len()
        invariant
            i <= areas.len(),
            mine@ == areas_on(areas@.take(i as int), id),
            forall|j: int|
                0 <= j < i ==> !((#[trigger] areas@[j]).device_id == id && areas@[j].off == 0
                    && areas@[j].flash_id != FlashId::BootLoader),
        decreases areas.len() - i,
    {
        let area = areas[i];
        proof {
            assert(areas@.take(i + 1).drop_last() =~= areas@.take(i as int));
        }
        if area.device_id == id {
            // If there are any partitions in this device that start at 0, and
            // aren't marked as the BootLoader partition, avoid adding the
            // partition table.  This makes it harder to view the image, but
            // avoids messing up images already written.
            if area.off == 0 && area.flash_id != FlashId::BootLoader {
                return None;
            }
            mine.push(area);
        }
        i = i + 1;
    }
    assert(areas@.take(areas@.len() as int) =~= areas@);
    proof {
        lemma_areas_on_len(areas@, id);
    }
    let mut buf: Vec<u8> = Vec::new();
    let head: [u8; 8] = [0x6d, 0x63, 0x75, 0x62, 0x6f, 0x6f, 0x74, 0];
    push_all(&mut buf, head.as_slice());
    // Iterate through all of the partitions in that device, and encode
    // into the table.
    push_le32(&mut buf, mine.len() as u32);
    let ghost start = buf@;
    let mut k: usize = 0;
    while k < mine.len()
        invariant
            k <= mine.len(),
            buf@ == start + table_entries(mine@.take(k as int)),
        decreases mine.len() - k,
    {
        let area = mine[k];
        let ghost before = buf@;
        push_le32(&mut buf, area.flash_id.number() as u32);
        push_le32(&mut buf, area.off);
        push_le32(&mut buf, area.size);
        push_le32(&mut buf, 0);
        proof {
            assert(mine@.take(k + 1).drop_last() =~= mine@.take(k as int));
            assert(buf@ =~= start + table_entries(mine@.take(k + 1)));
        }
        k = k + 1;
    }
    assert(mine@.take(mine@.len() as int) =~= mine@);
    assert(start =~= seq![0x6du8, 0x63u8, 0x75u8, 0x62u8, 0x6fu8, 0x6fu8, 0x74u8, 0u8] + le32(
        mine@.len() as u32,
    ));
    Some(buf)
}

} // verus!
