//! A flash simulator.
//!
//! This module simulates the kind of NOR flash commonly found in
//! microcontrollers: bytes can be programmed individually (subject to a write
//! alignment), but must be erased in whole sectors, and a byte that has been
//! programmed cannot be programmed again before its sector is erased.

use crate::crypto::random_word;
use crate::text::push_hex;
use vstd::prelude::*;

verus! {

/// Why a flash operation was refused.
#[derive(Debug)]
pub enum FlashError {
    /// The operation does not fit the device or its sector layout.
    OutOfBounds(String),
    /// The write is not one the device can perform.
    Write(String),
    /// The write was made to fail by a configured bad region.
    SimulatedFail(String),
}

impl FlashError {
    /// The text shown for this error: a fixed prefix for the variant, then
    /// the detail it carries.
    pub fn message(&self) -> (text: String)
        ensures
            text@ == match *self {
                FlashError::OutOfBounds(d) => "Offset out of bounds: "@ + d@,
                FlashError::Write(d) => "Invalid write: "@ + d@,
                FlashError::SimulatedFail(d) => "Write failed by chance: "@ + d@,
            },
    {
        match self {
            FlashError::OutOfBounds(d) => "Offset out of bounds: ".to_owned().concat(d.as_str()),
            FlashError::Write(d) => "Invalid write: ".to_owned().concat(d.as_str()),
            FlashError::SimulatedFail(d) => "Write failed by chance: ".to_owned().concat(
                d.as_str(),
            ),
        }
    }
}

/// An out-of-bounds error carrying `message`.
pub fn ebounds(message: &str) -> (e: FlashError)
    ensures
        e == FlashError::OutOfBounds(e->OutOfBounds_0),
        e->OutOfBounds_0@ == message@,
{
    FlashError::OutOfBounds(message.to_owned())
}

/// An invalid-write error carrying `message`.
pub fn ewrite(message: &str) -> (e: FlashError)
    ensures
        e == FlashError::Write(e->Write_0),
        e->Write_0@ == message@,
{
    FlashError::Write(message.to_owned())
}

/// A simulated-failure error carrying `message`.
pub fn esimulatedwrite(message: &str) -> (e: FlashError)
    ensures
        e == FlashError::SimulatedFail(e->SimulatedFail_0),
        e->SimulatedFail_0@ == message@,
{
    FlashError::SimulatedFail(message.to_owned())
}

/// One erasable unit of a device.
#[derive(Debug, Clone, Copy, PartialEq, Eq, Structural)]
pub struct Sector {
    /// Which sector this is, starting from 0.
    pub num: usize,
    /// The offset, in bytes, of the start of this sector.
    pub base: usize,
    /// The length, in bytes, of this sector.
    pub size: usize,
}

/// The offset at which sector `k` of a device with sector sizes `sizes`
/// begins: the sum of the sizes of the sectors before it.
pub open spec fn sector_base(sizes: Seq<usize>, k: int) -> int
    decreases k,
{
    if k <= 0 {
        0
    } else {
        sector_base(sizes, k - 1) + sizes[k - 1]
    }
}

/// The number of bytes in a device with sector sizes `sizes`.
pub open spec fn total_size(sizes: Seq<usize>) -> int {
    sector_base(sizes, sizes.len() as int)
}

/// Byte `offset` lies inside sector `k`.
pub open spec fn in_sector(sizes: Seq<usize>, k: int, offset: int) -> bool {
    &&& 0 <= k < sizes.len()
    &&& sector_base(sizes, k) <= offset < sector_base(sizes, k) + sizes[k]
}

/// `offset` is the first byte of some (non-empty) sector.
pub open spec fn starts_sector(sizes: Seq<usize>, offset: int) -> bool {
    exists|k: int| #[trigger] in_sector(sizes, k, offset) && sector_base(sizes, k) == offset
}

/// `end` is one past the last byte of some (non-empty) sector.
pub open spec fn ends_sector(sizes: Seq<usize>, end: int) -> bool {
    exists|k: int| #[trigger]
        in_sector(sizes, k, end - 1) && sector_base(sizes, k) + sizes[k] == end
}

/// The descriptor of sector `k`.
pub open spec fn sector_at(sizes: Seq<usize>, k: int) -> Sector {
    Sector { num: k as usize, base: sector_base(sizes, k) as usize, size: sizes[k] }
}

/// Sector bases never decrease.
pub proof fn lemma_base_monotone(sizes: Seq<usize>, i: int, j: int)
    requires
        0 <= i <= j <= sizes.len(),
    ensures
        0 <= sector_base(sizes, i) <= sector_base(sizes, j) <= total_size(sizes),
    decreases sizes.len() - i,
{
    if i < j {
        lemma_base_monotone(sizes, i + 1, j);
    } else if j < sizes.len() {
        lemma_base_monotone(sizes, j + 1, sizes.len() as int);
    }
    if i == 0 {
    } else {
        lemma_base_nonneg(sizes, i);
    }
}

proof fn lemma_base_nonneg(sizes: Seq<usize>, i: int)
    requires
        0 <= i <= sizes.len(),
    ensures
        0 <= sector_base(sizes, i),
    decreases i,
{
    if i > 0 {
        lemma_base_nonneg(sizes, i - 1);
    }
}

/// A byte lies in at most one sector.
pub proof fn lemma_sector_unique(sizes: Seq<usize>, a: int, b: int, offset: int)
    requires
        in_sector(sizes, a, offset),
        in_sector(sizes, b, offset),
    ensures
        a == b,
{
    if a < b {
        lemma_base_monotone(sizes, a + 1, b);
    } else if b < a {
        lemma_base_monotone(sizes, b + 1, a);
    }
}

/// A byte that lies in a sector lies inside the device.
pub proof fn lemma_sector_in_device(sizes: Seq<usize>, k: int, offset: int)
    requires
        in_sector(sizes, k, offset),
    ensures
        0 <= offset < total_size(sizes),
{
    lemma_base_monotone(sizes, 0, k);
    lemma_base_monotone(sizes, k + 1, sizes.len() as int);
}

/// A region of a device in which writes fail by chance.
///
/// The chance is held in units of 2^-24, the resolution of the samples that
/// decide each write: 0 never fails, `RATE_ONE` always does.
#[derive(Debug, Clone, Copy, PartialEq, Eq, Structural)]
pub struct BadRegion {
    /// First byte of the region.
    pub off: usize,
    /// Length of the region in bytes.
    pub len: usize,
    /// The chance that a write that overlaps the region fails, in units of
    /// 2^-24.
    pub rate: u32,
}

/// The rate that stands for certainty, and the number of distinct samples.
pub const RATE_ONE: u32 = 0x100_0000;

/// `rate` stands for a chance between zero and one inclusive.
pub open spec fn rate_in_range(rate: u32) -> bool {
    rate <= RATE_ONE
}

/// A write of `len` bytes at `offset` overlaps `region`: the two have a byte
/// in common.
pub open spec fn region_overlaps(region: BadRegion, offset: int, len: int) -> bool {
    offset < region.off + region.len && region.off < offset + len
}

/// A write of `len` bytes at `offset` for which `sample` was drawn is made to
/// fail by `region`: the write overlaps the region and the sample is below
/// the region's rate.
pub open spec fn region_fails(region: BadRegion, offset: int, len: int, sample: u32) -> bool {
    region_overlaps(region, offset, len) && sample < region.rate
}

/// Why a device cannot perform a write. A real device would be damaged or
/// would silently corrupt data; the simulator treats each as a defect of the
/// caller.
#[derive(Debug, Clone, Copy, PartialEq, Eq, Structural)]
pub enum WriteFault {
    /// The write runs past the end of the device.
    OutsideDevice,
    /// The address is not a multiple of the write alignment.
    MisalignedAddress,
    /// The length is not a multiple of the write alignment.
    MisalignedLength,
    /// The byte at this offset has been programmed since it was last erased.
    Unerased(usize),
}

/// The first offset in `from .. to` whose flag in `write_safe` is off; `to`
/// if there is none.
pub open spec fn first_programmed(write_safe: Seq<bool>, from: int, to: int) -> int
    decreases to - from,
{
    if from >= to {
        to
    } else if !write_safe[from] {
        from
    } else {
        first_programmed(write_safe, from + 1, to)
    }
}

/// What a simulated device holds.
pub struct FlashState {
    /// The contents of the device.
    pub data: Seq<u8>,
    /// For each byte, whether it may be programmed.
    pub write_safe: Seq<bool>,
    /// The size of each sector, in device order.
    pub sectors: Seq<usize>,
    /// The regions in which writes fail by chance, in the order they were added.
    pub bad_regions: Seq<BadRegion>,
    /// The alignment required of writes.
    pub align: usize,
    /// Whether writes to programmed bytes are refused.
    pub verify_writes: bool,
    /// The value of an erased byte.
    pub erased_val: u8,
}

/// An emulated flash device: a block of bytes and its sector layout.
pub struct SimFlash {
    data: Vec<u8>,
    write_safe: Vec<bool>,
    sectors: Vec<usize>,
    bad_region: Vec<BadRegion>,
    align: usize,
    verify_writes: bool,
    erased_val: u8,
}

impl View for SimFlash {
    type V = FlashState;

    closed spec fn view(&self) -> FlashState {
        FlashState {
            data: self.data@,
            write_safe: self.write_safe@,
            sectors: self.sectors@,
            bad_regions: self.bad_region@,
            align: self.align,
            verify_writes: self.verify_writes,
            erased_val: self.erased_val,
        }
    }
}

impl FlashState {
    /// The state is that of a well-formed device: one flag per byte, as many
    /// bytes as the sectors hold, and a write alignment that is a positive
    /// power of two.
    pub open spec fn wf(self) -> bool {
        &&& self.data.len() == total_size(self.sectors)
        &&& self.data.len() <= usize::MAX
        &&& self.write_safe.len() == self.data.len()
        &&& is_pow2(self.align)
    }

    /// The state after bytes `offset .. offset + len` have been erased.
    pub open spec fn erased(self, offset: int, len: int) -> FlashState {
        FlashState {
            data: Seq::new(
                self.data.len(),
                |i: int|
                    if offset <= i < offset + len {
                        self.erased_val
                    } else {
                        self.data[i]
                    },
            ),
            write_safe: Seq::new(
                self.write_safe.len(),
                |i: int| offset <= i < offset + len || self.write_safe[i],
            ),
            ..self
        }
    }

    /// An erase of `len` bytes at `offset` spans whole sectors.
    pub open spec fn can_erase(self, offset: int, len: int) -> bool {
        starts_sector(self.sectors, offset) && ends_sector(self.sectors, offset + len)
    }

    /// The detail carried by the error that refuses an erase.
    pub open spec fn erase_refusal(self, offset: int, len: int) -> Seq<char> {
        if !(offset < self.data.len()) {
            "start"@
        } else if !(0 <= offset + len - 1 < self.data.len()) {
            "end"@
        } else if !starts_sector(self.sectors, offset) {
            "offset not at start of sector"@
        } else {
            "end not at start of sector"@
        }
    }

    /// A read of `len` bytes at `offset` stays inside the device.
    pub open spec fn can_read(self, offset: int, len: int) -> bool {
        offset + len <= self.data.len()
    }

    /// Why the device cannot perform a write of `len` bytes at `offset`, if
    /// it cannot: the first of the reasons, in the order of `WriteFault`, that
    /// applies.
    pub open spec fn write_fault(self, offset: int, len: int) -> Option<WriteFault> {
        if offset + len > self.data.len() {
            Some(WriteFault::OutsideDevice)
        } else if offset % (self.align as int) != 0 {
            Some(WriteFault::MisalignedAddress)
        } else if len % (self.align as int) != 0 {
            Some(WriteFault::MisalignedLength)
        } else if self.verify_writes && first_programmed(self.write_safe, offset, offset + len)
            < offset + len {
            Some(WriteFault::Unerased(first_programmed(self.write_safe, offset, offset + len) as usize))
        } else {
            None
        }
    }

    /// The device can perform a write of `len` bytes at `offset`.
    pub open spec fn can_write(self, offset: int, len: int) -> bool {
        self.write_fault(offset, len) is None
    }

    /// The state after `payload` has been programmed at `offset`.
    pub open spec fn written(self, offset: int, payload: Seq<u8>) -> FlashState {
        FlashState {
            data: Seq::new(
                self.data.len(),
                |i: int|
                    if offset <= i < offset + payload.len() {
                        payload[i - offset]
                    } else {
                        self.data[i]
                    },
            ),
            write_safe: Seq::new(
                self.write_safe.len(),
                |i: int| !(offset <= i < offset + payload.len()) && self.write_safe[i],
            ),
            ..self
        }
    }

    /// Some bad region can make a write of `len` bytes at `offset` fail.
    pub open spec fn may_fail(self, offset: int, len: int) -> bool {
        exists|i: int|
            0 <= i < self.bad_regions.len() && region_overlaps(
                #[trigger] self.bad_regions[i],
                offset,
                len,
            ) && self.bad_regions[i].rate > 0
    }

    /// Some bad region makes every write of `len` bytes at `offset` fail.
    pub open spec fn must_fail(self, offset: int, len: int) -> bool {
        exists|i: int|
            0 <= i < self.bad_regions.len() && region_overlaps(
                #[trigger] self.bad_regions[i],
                offset,
                len,
            ) && self.bad_regions[i].rate >= RATE_ONE
    }

    /// The state with one more bad region.
    pub open spec fn with_bad_region(self, region: BadRegion) -> FlashState {
        FlashState { bad_regions: self.bad_regions.push(region), ..self }
    }
}

/// `n` is a positive power of two.
pub open spec fn is_pow2(n: usize) -> bool {
    n > 0 && n & ((n - 1) as usize) == 0
}

impl SimFlash {
    /// The device is well formed.
    pub open spec fn wf(&self) -> bool {
        self@.wf()
    }

    /// Given a sector size map, constructs a flash device for it, fully
    /// erased, with no bad regions and with write verification on.
    pub fn new(sectors: Vec<usize>, align: usize, erased_val: u8) -> (flash: SimFlash)
        requires
            is_pow2(align),
            total_size(sectors@) <= usize::MAX,
        ensures
            flash.wf(),
            flash@.sectors == sectors@,
            flash@.align == align,
            flash@.erased_val == erased_val,
            flash@.verify_writes,
            flash@.bad_regions.len() == 0,
            flash@.data == Seq::new(total_size(sectors@) as nat, |i: int| erased_val),
            flash@.write_safe == Seq::new(total_size(sectors@) as nat, |i: int| true),
    {
        let mut total: usize = 0;
        let mut i: usize = 0;
        while i < sectors.len()
            invariant
                i <= sectors.len(),
                total == sector_base(sectors@, i as int),
                total_size(sectors@) <= usize::MAX,
            decreases sectors.len() - i,
        {
            proof {
                lemma_base_monotone(sectors@, i as int + 1, sectors.len() as int);
            }
            total = total + sectors[i];
            i = i + 1;
        }
        let data = vec![erased_val; total];
        let write_safe = vec![true; total];
        let flash = SimFlash {
            data,
            write_safe,
            sectors,
            bad_region: Vec::new(),
            align,
            verify_writes: true,
            erased_val,
        };
        assert(flash@.data =~= Seq::new(total as nat, |i: int| erased_val));
        assert(flash@.write_safe =~= Seq::new(total as nat, |i: int| true));
        flash
    }

    /// Scans the sector map for the sector that holds byte `offset`, and
    /// returns its index and the position of the byte within it; `None` if the
    /// byte is outside the device.
    pub fn get_sector(&self, offset: usize) -> (found: Option<(usize, usize)>)
        requires
            self.wf(),
        ensures
            match found {
                Some((sector, within)) => in_sector(self@.sectors, sector as int, offset as int)
                    && within == offset - sector_base(self@.sectors, sector as int),
                None => offset >= self@.data.len(),
            },
    {
        let mut rest: usize = offset;
        let mut i: usize = 0;
        while i < self.sectors.len()
            invariant
                i <= self.sectors.len(),
                rest == offset - sector_base(self.sectors@, i as int),
            decreases self.sectors.len() - i,
        {
            let size = self.sectors[i];
            if rest < size {
                return Some((i, rest));
            }
            rest = rest - size;
            i = i + 1;
        }
        None
    }

    /// Erases `len` bytes at `offset`.
    ///
    /// Flash drivers tend to erase beyond the bounds of the given range. This
    /// device is strict: the range must begin where a sector begins and end
    /// where a sector ends, otherwise nothing is changed and the erase is
    /// refused.
    pub fn erase(&mut self, offset: usize, len: usize) -> (result: Result<(), FlashError>)
        requires
            old(self).wf(),
        ensures
            final(self).wf(),
            old(self)@.can_erase(offset as int, len as int) ==> result is Ok && final(self)@
                == old(self)@.erased(offset as int, len as int),
            !old(self)@.can_erase(offset as int, len as int) ==> final(self)@ == old(self)@
                && result is Err && result->Err_0 is OutOfBounds && result->Err_0->OutOfBounds_0@
                == old(self)@.erase_refusal(offset as int, len as int),
    {
        let start = self.get_sector(offset);
        if start.is_none() {
            proof {
                assert forall|k: int| !#[trigger] in_sector(self@.sectors, k, offset as int) by {
                    if in_sector(self@.sectors, k, offset as int) {
                        lemma_sector_in_device(self@.sectors, k, offset as int);
                    }
                }
            }
            return Err(ebounds("start"));
        }
        let (first, slen) = start.unwrap();
        proof {
            lemma_sector_in_device(self@.sectors, first as int, offset as int);
        }
        let ghost last_byte: int = offset + len - 1;
        let total = self.data.len();
        if len > usize::MAX - offset || (len == 0 && offset == 0) {
            proof {
                assert forall|k: int| !#[trigger] in_sector(self@.sectors, k, last_byte) by {
                    if in_sector(self@.sectors, k, last_byte) {
                        lemma_sector_in_device(self@.sectors, k, last_byte);
                    }
                }
            }
            return Err(ebounds("end"));
        }
        let finish = self.get_sector(offset + len - 1);
        if finish.is_none() {
            proof {
                assert forall|k: int| !#[trigger] in_sector(self@.sectors, k, last_byte) by {
                    if in_sector(self@.sectors, k, last_byte) {
                        lemma_sector_in_device(self@.sectors, k, last_byte);
                    }
                }
            }
            return Err(ebounds("end"));
        }
        let (last, elen) = finish.unwrap();
        proof {
            lemma_sector_in_device(self@.sectors, last as int, last_byte);
        }
        if slen != 0 {
            proof {
                assert forall|k: int| #[trigger]
                    in_sector(self@.sectors, k, offset as int) implies sector_base(
                    self@.sectors,
                    k,
                ) != offset by {
                    lemma_sector_unique(self@.sectors, k, first as int, offset as int);
                }
            }
            return Err(ebounds("offset not at start of sector"));
        }
        if elen != self.sectors[last] - 1 {
            proof {
                assert forall|k: int| #[trigger]
                    in_sector(self@.sectors, k, last_byte) implies sector_base(self@.sectors, k)
                    + self@.sectors[k] != offset + len by {
                    lemma_sector_unique(self@.sectors, k, last as int, last_byte);
                }
            }
            return Err(ebounds("end not at start of sector"));
        }
        assert(in_sector(self@.sectors, first as int, offset as int));
        assert(in_sector(self@.sectors, last as int, last_byte));
        let end = offset + len;
        let mut i: usize = offset;
        while i < end
            invariant
                offset <= i <= end,
                end == offset + len,
                end <= self.data.len(),
                self.write_safe.len() == self.data.len(),
                self.data@.len() == old(self).data@.len(),
                self.sectors == old(self).sectors,
                self.bad_region == old(self).bad_region,
                self.align == old(self).align,
                self.verify_writes == old(self).verify_writes,
                self.erased_val == old(self).erased_val,
                old(self).write_safe@.len() == old(self).data@.len(),
                forall|j: int|
                    0 <= j < self.data@.len() ==> #[trigger] self.data@[j] == (if offset <= j < i {
                        self.erased_val
                    } else {
                        old(self).data@[j]
                    }),
                forall|j: int|
                    0 <= j < self.data@.len() ==> #[trigger] self.write_safe@[j] == ((offset <= j
                        < i) || old(self).write_safe@[j]),
            decreases end - i,
        {
            self.data[i] = self.erased_val;
            self.write_safe[i] = true;
            i = i + 1;
        }
        assert(self@.data =~= old(self)@.erased(offset as int, len as int).data);
        assert(self@.write_safe =~= old(self)@.erased(offset as int, len as int).write_safe);
        Ok(())
    }

    /// Copies the bytes at `offset` into `data`, as many as `data` holds.
    ///
    /// A read that would run past the end of the device is refused and leaves
    /// `data` as it was. Reading changes nothing in the device and never fails
    /// by chance.
    pub fn read(&self, offset: usize, data: &mut [u8]) -> (result: Result<(), FlashError>)
        requires
            self.wf(),
        ensures
            final(data)@.len() == old(data)@.len(),
            self@.can_read(offset as int, old(data)@.len() as int) ==> result is Ok && final(data)@
                == self@.data.subrange(offset as int, offset + old(data)@.len()),
            !self@.can_read(offset as int, old(data)@.len() as int) ==> final(data)@ == old(data)@
                && result is Err && result->Err_0 is OutOfBounds && result->Err_0->OutOfBounds_0@
                == "Read outside of device"@,
    {
        let len = data.len();
        let total = self.data.len();
        if len > total || offset > total - len {
            return Err(ebounds("Read outside of device"));
        }
        let mut i: usize = 0;
        while i < len
            invariant
                i <= len,
                len == data@.len(),
                total == self.data@.len(),
                offset + len <= total,
                forall|j: int| 0 <= j < i ==> data@[j] == self.data@[offset + j],
            decreases len - i,
        {
            data[i] = self.data[offset + i];
            i = i + 1;
        }
        assert(data@ =~= self@.data.subrange(offset as int, offset + len));
        Ok(())
    }

    /// The number of bytes in the device.
    pub fn device_size(&self) -> (size: usize)
        ensures
            size == self@.data.len(),
    {
        self.data.len()
    }

    /// The alignment required of writes.
    pub fn align(&self) -> (align: usize)
        ensures
            align == self@.align,
    {
        self.align
    }

    /// The value of an erased byte.
    pub fn erased_val(&self) -> (val: u8)
        ensures
            val == self@.erased_val,
    {
        self.erased_val
    }

    /// Why the device cannot perform a write of `len` bytes at `offset`, if
    /// it cannot.
    pub fn write_fault(&self, offset: usize, len: usize) -> (fault: Option<WriteFault>)
        requires
            self.wf(),
        ensures
            fault == self@.write_fault(offset as int, len as int),
    {
        let total = self.data.len();
        if len > total || offset > total - len {
            return Some(WriteFault::OutsideDevice);
        }
        if offset % self.align != 0 {
            return Some(WriteFault::MisalignedAddress);
        }
        if len % self.align != 0 {
            return Some(WriteFault::MisalignedLength);
        }
        if self.verify_writes {
            let end = offset + len;
            let mut i: usize = offset;
            while i < end
                invariant
                    offset <= i <= end,
                    end == offset + len,
                    end <= self.write_safe.len(),
                    self.wf(),
                    self.verify_writes,
                    offset + len <= self.data@.len(),
                    offset as int % (self.align as int) == 0,
                    len as int % (self.align as int) == 0,
                    first_programmed(self.write_safe@, offset as int, end as int)
                        == first_programmed(self.write_safe@, i as int, end as int),
                decreases end - i,
            {
                if !self.write_safe[i] {
                    return Some(WriteFault::Unerased(i));
                }
                i = i + 1;
            }
        }
        None
    }

    /// Programs `payload` at `offset`, with no failure by chance: the bytes
    /// are copied in and marked as programmed.
    pub fn program(&mut self, offset: usize, payload: &[u8])
        requires
            old(self).wf(),
            old(self)@.can_write(offset as int, payload@.len() as int),
        ensures
            final(self).wf(),
            final(self)@ == old(self)@.written(offset as int, payload@),
    {
        let len = payload.len();
        let mut i: usize = 0;
        while i < len
            invariant
                i <= len,
                len == payload@.len(),
                offset + len <= self.data.len(),
                self.write_safe.len() == self.data.len(),
                self.data@.len() == old(self).data@.len(),
                self.sectors == old(self).sectors,
                self.bad_region == old(self).bad_region,
                self.align == old(self).align,
                self.verify_writes == old(self).verify_writes,
                self.erased_val == old(self).erased_val,
                old(self).write_safe@.len() == old(self).data@.len(),
                forall|j: int|
                    0 <= j < self.data@.len() ==> #[trigger] self.data@[j] == (if offset <= j
                        < offset + i {
                        payload@[j - offset]
                    } else {
                        old(self).data@[j]
                    }),
                forall|j: int|
                    0 <= j < self.data@.len() ==> #[trigger] self.write_safe@[j] == (!(offset <= j
                        < offset + i) && old(self).write_safe@[j]),
            decreases len - i,
        {
            self.data[offset + i] = payload[i];
            self.write_safe[offset + i] = false;
            i = i + 1;
        }
        assert(self@.data =~= old(self)@.written(offset as int, payload@).data);
        assert(self@.write_safe =~= old(self)@.written(offset as int, payload@).write_safe);
    }

    /// Writes `payload` at `offset`.
    ///
    /// Only bytes that have not been programmed since they were last erased
    /// may be written, even where a repeated write would be harmless.
    ///
    /// For each bad region that the write overlaps, in the order the regions
    /// were added, a sample is drawn; the first sample below its region's rate
    /// makes the write fail and leaves the device as it was. Otherwise the
    /// payload is programmed.
    ///
    /// A write that the device cannot perform must not be attempted, unless a
    /// bad region is certain to fail it first.
    pub fn write(&mut self, offset: usize, payload: &[u8]) -> (result: Result<(), FlashError>)
        requires
            old(self).wf(),
            old(self)@.can_write(offset as int, payload@.len() as int) || old(self)@.must_fail(
                offset as int,
                payload@.len() as int,
            ),
        ensures
            final(self).wf(),
            result is Ok ==> final(self)@ == old(self)@.written(offset as int, payload@),
            result is Err ==> final(self)@ == old(self)@ && result->Err_0 is SimulatedFail,
            result is Err ==> old(self)@.may_fail(offset as int, payload@.len() as int),
            result is Ok ==> !old(self)@.must_fail(offset as int, payload@.len() as int),
    {
        let len = payload.len();
        let mut i: usize = 0;
        while i < self.bad_region.len()
            invariant
                i <= self.bad_region.len(),
                len == payload@.len(),
                *self == *old(self),
                self.wf(),
                forall|j: int|
                    0 <= j < i ==> !(region_overlaps(
                        #[trigger] self.bad_region@[j],
                        offset as int,
                        len as int,
                    ) && self.bad_region@[j].rate >= RATE_ONE),
            decreases self.bad_region.len() - i,
        {
            let region = self.bad_region[i];
            if overlaps(&region, offset, len) {
                let sample = draw_sample();
                if fails_in(&region, offset, len, sample) {
                    assert(region_overlaps(self@.bad_regions[i as int], offset as int, len as int));
                    return Err(FlashError::SimulatedFail(refusal_text(&region)));
                }
            }
            i = i + 1;
        }
        self.program(offset, payload);
        Ok(())
    }

    /// Adds a bad region: writes that overlap the `len` bytes at `offset` then
    /// fail with the chance `rate`, in units of 2^-24. A rate above one is
    /// refused.
    pub fn add_bad_region(&mut self, offset: usize, len: usize, rate: u32) -> (result: Result<
        (),
        FlashError,
    >)
        requires
            old(self).wf(),
        ensures
            final(self).wf(),
            rate_in_range(rate) ==> result is Ok && final(self)@ == old(self)@.with_bad_region(
                BadRegion { off: offset, len, rate },
            ),
            !rate_in_range(rate) ==> final(self)@ == old(self)@ && result is Err && result->Err_0
                is OutOfBounds && result->Err_0->OutOfBounds_0@ == "Invalid rate"@,
    {
        if rate > RATE_ONE {
            return Err(ebounds("Invalid rate"));
        }
        self.bad_region.push(BadRegion { off: offset, len, rate });
        Ok(())
    }

    /// Removes every bad region.
    pub fn reset_bad_regions(&mut self)
        ensures
            final(self)@ == (FlashState { bad_regions: Seq::empty(), ..old(self)@ }),
    {
        self.bad_region.clear();
    }

    /// Turns the refusal of writes to programmed bytes on or off.
    pub fn set_verify_writes(&mut self, enable: bool)
        ensures
            final(self)@ == (FlashState { verify_writes: enable, ..old(self)@ }),
    {
        self.verify_writes = enable;
    }

    /// An iterator over the sectors of the device, from the first.
    pub fn sector_iter(&self) -> (iter: SectorIter<'_>)
        requires
            self.wf(),
        ensures
            iter.wf(),
            iter.sizes() == self@.sectors,
            iter.position() == 0,
    {
        proof {
            assert(total_size(self.sectors@) == self.data@.len());
        }
        let total = self.data.len();
        SectorIter { sizes: &self.sectors, index: 0, base: 0 }
    }
}

impl Clone for SimFlash {
    /// A deep copy: the two devices share nothing.
    fn clone(&self) -> (copy: SimFlash)
        ensures
            copy@ == self@,
    {
        let copy = SimFlash {
            data: self.data.clone(),
            write_safe: self.write_safe.clone(),
            sectors: self.sectors.clone(),
            bad_region: self.bad_region.clone(),
            align: self.align,
            verify_writes: self.verify_writes,
            erased_val: self.erased_val,
        };
        assert(copy.data@ =~= self.data@);
        assert(copy.write_safe@ =~= self.write_safe@);
        assert(copy.sectors@ =~= self.sectors@);
        assert(copy.bad_region@ =~= self.bad_region@);
        copy
    }
}

/// Whether a write of `len` bytes at `offset` overlaps `region`.
pub fn overlaps(region: &BadRegion, offset: usize, len: usize) -> (meets: bool)
    ensures
        meets == region_overlaps(*region, offset as int, len as int),
{
    let begins_before_end = offset < region.off || offset - region.off < region.len;
    let ends_after_begin = region.off < offset || region.off - offset < len;
    begins_before_end && ends_after_begin
}

/// Whether `region` makes a write of `len` bytes at `offset` fail, given the
/// sample drawn for it.
pub fn fails_in(region: &BadRegion, offset: usize, len: usize, sample: u32) -> (fails: bool)
    ensures
        fails == region_fails(*region, offset as int, len as int, sample),
{
    overlaps(region, offset, len) && sample < region.rate
}

/// Draws the sample that decides one write in one bad region: the upper 24
/// bits of a random word, so a uniform value below `RATE_ONE`.
pub fn draw_sample() -> (sample: u32)
    ensures
        sample < RATE_ONE,
{
    sample_of(random_word())
}

/// The sample that the random word `word` gives: its upper 24 bits.
pub fn sample_of(word: u32) -> (sample: u32)
    ensures
        sample == word >> 8,
        sample < RATE_ONE,
{
    assert(word >> 8 < 0x100_0000u32) by (bit_vector);
    word >> 8
}

/// The detail of the error for a write that `region` made fail.
fn refusal_text(region: &BadRegion) -> (text: String)
    ensures
        text@ == "Ignoring write to "@ + crate::text::hex_prefixed(region.off as nat) + "-"@
            + crate::text::hex_prefixed(region.off.wrapping_add(region.len) as nat),
{
    let mut text = "Ignoring write to 0x".to_owned();
    proof {
        reveal_strlit("Ignoring write to 0x");
        reveal_strlit("Ignoring write to ");
        reveal_strlit("-0x");
        reveal_strlit("-");
    }
    push_hex(&mut text, region.off);
    text.append("-0x");
    push_hex(&mut text, region.off.wrapping_add(region.len));
    assert(text@ =~= "Ignoring write to "@ + crate::text::hex_prefixed(region.off as nat) + "-"@
        + crate::text::hex_prefixed(region.off.wrapping_add(region.len) as nat));
    text
}

/// A cursor over the sectors of a device. Each call of `next` gives the next
/// sector's descriptor, until the device is exhausted.
pub struct SectorIter<'a> {
    sizes: &'a Vec<usize>,
    index: usize,
    base: usize,
}

impl<'a> SectorIter<'a> {
    /// The sector sizes of the device that is walked.
    pub closed spec fn sizes(&self) -> Seq<usize> {
        self.sizes@
    }

    /// The number of sectors already given out.
    pub closed spec fn position(&self) -> nat {
        self.index as nat
    }

    /// The cursor is inside its device and knows where its sector begins.
    pub closed spec fn wf(&self) -> bool {
        &&& self.index <= self.sizes@.len()
        &&& self.base == sector_base(self.sizes@, self.index as int)
        &&& total_size(self.sizes@) <= usize::MAX
    }

    /// The next sector, or `None` when every sector has been given out.
    pub fn next(&mut self) -> (sector: Option<Sector>)
        requires
            old(self).wf(),
        ensures
            final(self).wf(),
            final(self).sizes() == old(self).sizes(),
            old(self).position() < old(self).sizes().len() ==> sector == Some(
                sector_at(old(self).sizes(), old(self).position() as int),
            ) && final(self).position() == old(self).position() + 1,
            old(self).position() >= old(self).sizes().len() ==> sector is None
                && final(self).position() == old(self).position(),
    {
        if self.index >= self.sizes.len() {
            return None;
        }
        let size = self.sizes[self.index];
        let sector = Sector { num: self.index, base: self.base, size };
        proof {
            lemma_base_monotone(self.sizes@, self.index as int + 1, self.sizes@.len() as int);
        }
        self.base = self.base + size;
        self.index = self.index + 1;
        Some(sector)
    }
}

/// What a flash device offers.
pub trait Flash {
    /// What the device holds.
    spec fn state(&self) -> FlashState;

    /// Erases `len` bytes at `offset`, which must span whole sectors.
    fn erase(&mut self, offset: usize, len: usize) -> (result: Result<(), FlashError>)
        requires
            old(self).state().wf(),
        ensures
            final(self).state().wf(),
            old(self).state().can_erase(offset as int, len as int) ==> result is Ok && final(self).state() == old(self).state().erased(offset as int, len as int),
            !old(self).state().can_erase(offset as int, len as int) ==> final(self).state() == old(self).state() && result is Err && result->Err_0 is OutOfBounds,
    ;

    /// Writes `payload` at `offset`, unless a bad region fails the write.
    fn write(&mut self, offset: usize, payload: &[u8]) -> (result: Result<(), FlashError>)
        requires
            old(self).state().wf(),
            old(self).state().can_write(offset as int, payload@.len() as int) || old(self).state().must_fail(offset as int, payload@.len() as int),
        ensures
            final(self).state().wf(),
            result is Ok ==> final(self).state() == old(self).state().written(
                offset as int,
                payload@,
            ) && !old(self).state().must_fail(offset as int, payload@.len() as int),
            result is Err ==> final(self).state() == old(self).state() && result->Err_0
                is SimulatedFail && old(self).state().may_fail(
                offset as int,
                payload@.len() as int,
            ),
    ;

    /// Copies the bytes at `offset` into `data`, as many as `data` holds.
    fn read(&self, offset: usize, data: &mut [u8]) -> (result: Result<(), FlashError>)
        requires
            self.state().wf(),
        ensures
            final(data)@.len() == old(data)@.len(),
            self.state().can_read(offset as int, old(data)@.len() as int) ==> result is Ok && final(data)@ == self.state().data.subrange(offset as int, offset + old(data)@.len()),
            !self.state().can_read(offset as int, old(data)@.len() as int) ==> final(data)@ == old(data)@ && result is Err && result->Err_0 is OutOfBounds,
    ;

    /// Adds a bad region, unless the rate is above one.
    fn add_bad_region(&mut self, offset: usize, len: usize, rate: u32) -> (result: Result<
        (),
        FlashError,
    >)
        requires
            old(self).state().wf(),
        ensures
            final(self).state().wf(),
            rate_in_range(rate) ==> result is Ok && final(self).state() == old(self).state().with_bad_region(BadRegion { off: offset, len, rate }),
            !rate_in_range(rate) ==> final(self).state() == old(self).state() && result is Err
                && result->Err_0 is OutOfBounds,
    ;

    /// Removes every bad region.
    fn reset_bad_regions(&mut self)
        ensures
            final(self).state() == (FlashState { bad_regions: Seq::empty(), ..old(self).state() }),
    ;

    /// Turns the refusal of writes to programmed bytes on or off.
    fn set_verify_writes(&mut self, enable: bool)
        ensures
            final(self).state() == (FlashState { verify_writes: enable, ..old(self).state() }),
    ;

    /// An iterator over the sectors of the device, from the first.
    fn sector_iter(&self) -> (iter: SectorIter<'_>)
        requires
            self.state().wf(),
        ensures
            iter.wf(),
            iter.sizes() == self.state().sectors,
            iter.position() == 0,
    ;

    /// The number of bytes in the device.
    fn device_size(&self) -> (size: usize)
        ensures
            size == self.state().data.len(),
    ;

    /// The alignment required of writes.
    fn align(&self) -> (align: usize)
        ensures
            align == self.state().align,
    ;

    /// The value of an erased byte.
    fn erased_val(&self) -> (val: u8)
        ensures
            val == self.state().erased_val,
    ;
}

impl Flash for SimFlash {
    open spec fn state(&self) -> FlashState {
        self@
    }

    fn erase(&mut self, offset: usize, len: usize) -> (result: Result<(), FlashError>) {
        SimFlash::erase(self, offset, len)
    }

    fn write(&mut self, offset: usize, payload: &[u8]) -> (result: Result<(), FlashError>) {
        SimFlash::write(self, offset, payload)
    }

    fn read(&self, offset: usize, data: &mut [u8]) -> (result: Result<(), FlashError>) {
        SimFlash::read(self, offset, data)
    }

    fn add_bad_region(&mut self, offset: usize, len: usize, rate: u32) -> (result: Result<
        (),
        FlashError,
    >) {
        SimFlash::add_bad_region(self, offset, len, rate)
    }

    fn reset_bad_regions(&mut self) {
        SimFlash::reset_bad_regions(self)
    }

    fn set_verify_writes(&mut self, enable: bool) {
        SimFlash::set_verify_writes(self, enable)
    }

    fn sector_iter(&self) -> (iter: SectorIter<'_>) {
        SimFlash::sector_iter(self)
    }

    fn device_size(&self) -> (size: usize) {
        SimFlash::device_size(self)
    }

    fn align(&self) -> (align: usize) {
        SimFlash::align(self)
    }

    fn erased_val(&self) -> (val: u8) {
        SimFlash::erased_val(self)
    }
}

/// After a range has been erased, a read of it succeeds and finds the erased
/// value in every byte.
pub proof fn law_erase_then_read(state: FlashState, offset: int, len: int)
    requires
        state.wf(),
        0 <= offset,
        0 <= len,
        state.can_erase(offset, len),
    ensures
        state.erased(offset, len).wf(),
        state.erased(offset, len).can_read(offset, len),
        state.erased(offset, len).data.subrange(offset, offset + len) == Seq::new(
            len as nat,
            |i: int| state.erased_val,
        ),
{
    let k = choose|k: int| #[trigger]
        in_sector(state.sectors, k, offset + len - 1) && sector_base(state.sectors, k)
            + state.sectors[k] == offset + len;
    lemma_sector_in_device(state.sectors, k, offset + len - 1);
    assert(state.erased(offset, len).data.subrange(offset, offset + len) =~= Seq::new(
        len as nat,
        |i: int| state.erased_val,
    ));
}

/// After a range has been erased, the device can perform any aligned write
/// inside it.
pub proof fn law_erased_is_writable(state: FlashState, offset: int, len: int, at: int, n: int)
    requires
        state.wf(),
        0 <= offset <= at,
        0 <= n,
        at + n <= offset + len,
        state.can_erase(offset, len),
        at % (state.align as int) == 0,
        n % (state.align as int) == 0,
    ensures
        state.erased(offset, len).can_write(at, n),
{
    law_erase_then_read(state, offset, len);
    lemma_first_programmed_none(state.erased(offset, len).write_safe, at, at + n);
}

/// After a payload has been written, a read of the same range succeeds and
/// finds exactly the payload; and while write verification is on, the device
/// cannot perform a second write there: the first byte of the range is
/// reported as programmed.
pub proof fn law_write_then_read(state: FlashState, offset: int, payload: Seq<u8>)
    requires
        state.wf(),
        0 <= offset,
        state.can_write(offset, payload.len() as int),
    ensures
        state.written(offset, payload).wf(),
        state.written(offset, payload).can_read(offset, payload.len() as int),
        state.written(offset, payload).data.subrange(offset, offset + payload.len()) == payload,
        state.verify_writes && payload.len() > 0 ==> state.written(offset, payload).write_fault(
            offset,
            payload.len() as int,
        ) == Some(WriteFault::Unerased(offset as usize)),
{
    assert(state.written(offset, payload).data.subrange(offset, offset + payload.len())
        =~= payload);
}

/// Where every flag in a range is on, no byte of the range counts as
/// programmed.
pub proof fn lemma_first_programmed_none(write_safe: Seq<bool>, from: int, to: int)
    requires
        0 <= from,
        to <= write_safe.len(),
        forall|i: int| from <= i < to ==> write_safe[i],
    ensures
        first_programmed(write_safe, from, to) >= to,
    decreases to - from,
{
    if from < to {
        lemma_first_programmed_none(write_safe, from + 1, to);
    }
}

} // verus!
