//! Printable hexdump.
//!
//! Each line shows up to sixteen bytes: the offset of the first, the bytes in
//! hexadecimal with a gap after the eighth, and the bytes as characters, with
//! a dot for each one that is not printable.

use crate::text::{hex_padded, push_hex_padded};
use vstd::prelude::*;
use vstd::string::StringExecFns;

verus! {

/// The number of bytes shown on a line.
pub const LINE_BYTES: usize = 16;

/// The width of the hexadecimal column.
pub const HEX_WIDTH: usize = 49;

/// The hexadecimal column for `bytes`: a space and two digits for each, and
/// one more space in front of the ninth.
pub open spec fn hex_column(bytes: Seq<u8>) -> Seq<char>
    decreases bytes.len(),
{
    if bytes.len() == 0 {
        Seq::empty()
    } else {
        hex_column(bytes.drop_last()) + hex_cell(bytes.len() - 1, bytes.last())
    }
}

/// What byte `b`, at position `index` in its line, adds to the hexadecimal
/// column.
pub open spec fn hex_cell(index: int, b: u8) -> Seq<char> {
    if index == 8 {
        seq![' ', ' '] + hex_padded(b as nat, 2)
    } else {
        seq![' '] + hex_padded(b as nat, 2)
    }
}

/// The character shown for byte `b`: itself where it is printable ASCII, a
/// dot where it is not.
pub open spec fn shown_char(b: u8) -> char {
    if 0x20 <= b <= 0x7e {
        b as char
    } else {
        '.'
    }
}

/// The character column for `bytes`.
pub open spec fn ascii_column(bytes: Seq<u8>) -> Seq<char> {
    Seq::new(bytes.len(), |i: int| shown_char(bytes[i]))
}

/// `n` spaces.
pub open spec fn spaces(n: nat) -> Seq<char> {
    Seq::new(n, |i: int| ' ')
}

/// `text` with spaces behind it up to `width` characters.
pub open spec fn padded_right(text: Seq<char>, width: nat) -> Seq<char> {
    if width > text.len() {
        text + spaces((width - text.len()) as nat)
    } else {
        text
    }
}

/// The line for `bytes`, the first of which is at `offset`.
pub open spec fn dump_line(offset: nat, bytes: Seq<u8>) -> Seq<char> {
    hex_padded(offset, 6) + seq![' '] + padded_right(hex_column(bytes), HEX_WIDTH as nat) + seq![
        ' ',
        '|',
    ] + ascii_column(bytes) + seq!['|', '\n']
}

/// Where the last line of a dump of `len` bytes begins.
pub open spec fn last_line_start(len: nat) -> nat {
    ((len - 1) / 16 * 16) as nat
}

/// The dump of `bytes`: one line for each sixteen bytes and one for what is
/// left over; nothing for no bytes.
pub open spec fn dump_text(bytes: Seq<u8>) -> Seq<char>
    decreases bytes.len(),
{
    if bytes.len() == 0 {
        Seq::empty()
    } else {
        let start = last_line_start(bytes.len());
        dump_text(bytes.take(start as int)) + dump_line(start, bytes.skip(start as int))
    }
}

/// Values that can be shown as a hexdump.
pub trait HexDump {
    /// The bytes of the value.
    spec fn dumped_bytes(&self) -> Seq<u8>;

    /// The value as a hexdump, one line of text for each sixteen bytes.
    fn dump(&self) -> (text: String)
        requires
            self.dumped_bytes().len() + LINE_BYTES <= usize::MAX,
        ensures
            text@ == dump_text(self.dumped_bytes()),
    ;
}

/// Builds a dump byte by byte.
pub struct Dumper {
    hex: String,
    ascii: String,
    count: usize,
    total_count: usize,
    out: String,
    pending: Ghost<Seq<u8>>,
}

impl Dumper {
    /// The lines completed so far.
    pub closed spec fn shipped(&self) -> Seq<char> {
        self.out@
    }

    /// The bytes of the line being built.
    pub closed spec fn pending(&self) -> Seq<u8> {
        self.pending@
    }

    /// The offset of the first byte of the line being built.
    pub closed spec fn offset(&self) -> nat {
        self.total_count as nat
    }

    /// The columns built so far are those of the pending bytes.
    pub closed spec fn wf(&self) -> bool {
        &&& self.count == self.pending@.len()
        &&& self.count <= LINE_BYTES
        &&& self.hex@ == hex_column(self.pending@)
        &&& self.ascii@ == ascii_column(self.pending@)
    }

    /// A dumper that has seen no byte.
    pub fn new() -> (dumper: Dumper)
        ensures
            dumper.wf(),
            dumper.shipped() == Seq::<char>::empty(),
            dumper.pending() == Seq::<u8>::empty(),
            dumper.offset() == 0,
    {
        let dumper = Dumper {
            hex: String::new(),
            ascii: String::new(),
            count: 0,
            total_count: 0,
            out: String::new(),
            pending: Ghost(Seq::empty()),
        };
        assert(dumper.ascii@ =~= ascii_column(dumper.pending@));
        dumper
    }

    /// Takes one more byte. A full line is completed first.
    pub fn add_byte(&mut self, ch: u8)
        requires
            old(self).wf(),
            old(self).offset() + LINE_BYTES <= usize::MAX,
        ensures
            final(self).wf(),
            old(self).pending().len() < LINE_BYTES ==> final(self).shipped() == old(self).shipped()
                && final(self).pending() == old(self).pending().push(ch) && final(self).offset()
                == old(self).offset(),
            old(self).pending().len() == LINE_BYTES ==> final(self).shipped() == old(self).shipped() + dump_line(old(self).offset(), old(self).pending()) && final(self).pending() == seq![ch] && final(self).offset() == old(self).offset() + LINE_BYTES,
    {
        if self.count == 16 {
            self.ship();
        }
        let ghost before = self.pending@;
        if self.count == 8 {
            self.hex.push(' ');
        }
        self.hex.push(' ');
        push_hex_padded(&mut self.hex, ch as usize, 2);
        self.ascii.push(
            if 0x20 <= ch && ch <= 0x7e {
                ch as char
            } else {
                '.'
            },
        );
        self.count = self.count + 1;
        self.pending = Ghost(before.push(ch));
        proof {
            assert(before.push(ch).drop_last() =~= before);
            assert(self.hex@ =~= hex_column(before) + hex_cell(before.len() as int, ch));
            assert(self.ascii@ =~= ascii_column(before.push(ch)));
        }
    }

    /// Completes the line being built, if it holds any byte.
    pub fn ship(&mut self)
        requires
            old(self).wf(),
            old(self).offset() + LINE_BYTES <= usize::MAX,
        ensures
            final(self).wf(),
            old(self).pending().len() == 0 ==> final(self).shipped() == old(self).shipped()
                && final(self).pending() == old(self).pending() && final(self).offset() == old(self).offset(),
            old(self).pending().len() > 0 ==> final(self).shipped() == old(self).shipped()
                + dump_line(old(self).offset(), old(self).pending()) && final(self).pending()
                == Seq::<u8>::empty() && final(self).offset() == old(self).offset() + LINE_BYTES,
    {
        if self.count == 0 {
            return ;
        }
        let ghost start = self.out@;
        push_hex_padded(&mut self.out, self.total_count, 6);
        self.out.push(' ');
        self.out.append(self.hex.as_str());
        let mut width: usize = self.hex.as_str().unicode_len();
        let ghost column = self.hex@;
        while width < HEX_WIDTH
            invariant
                width >= column.len(),
                width <= HEX_WIDTH || width == column.len(),
                self.hex == old(self).hex,
                self.ascii == old(self).ascii,
                self.count == old(self).count,
                self.total_count == old(self).total_count,
                self.pending == old(self).pending,
                self.out@ == start + hex_padded(self.total_count as nat, 6) + seq![' '] + column
                    + spaces((width - column.len()) as nat),
            decreases HEX_WIDTH - width,
        {
            self.out.push(' ');
            width = width + 1;
            assert(self.out@ =~= start + hex_padded(self.total_count as nat, 6) + seq![' ']
                + column + spaces((width - column.len()) as nat));
        }
        self.out.push(' ');
        self.out.push('|');
        self.out.append(self.ascii.as_str());
        self.out.push('|');
        self.out.push('\n');
        proof {
            assert(self.out@ =~= start + dump_line(self.total_count as nat, self.pending@));
        }
        self.hex = String::new();
        self.ascii = String::new();
        self.total_count = self.total_count + 16;
        self.count = 0;
        self.pending = Ghost(Seq::empty());
        proof {
            assert(self.ascii@ =~= ascii_column(self.pending@));
        }
    }

    /// Completes the last line and gives the whole dump.
    pub fn finish(self) -> (text: String)
        requires
            self.wf(),
            self.offset() + LINE_BYTES <= usize::MAX,
        ensures
            self.pending().len() == 0 ==> text@ == self.shipped(),
            self.pending().len() > 0 ==> text@ == self.shipped() + dump_line(
                self.offset(),
                self.pending(),
            ),
    {
        let mut dumper = self;
        dumper.ship();
        dumper.out
    }
}

/// The hexdump of `bytes`.
pub fn hex_dump(bytes: &[u8]) -> (text: String)
    requires
        bytes@.len() + LINE_BYTES <= usize::MAX,
    ensures
        text@ == dump_text(bytes@),
{
    let mut dumper = Dumper::new();
    let mut i: usize = 0;
    while i < bytes.len()
        invariant
            i <= bytes.len(),
            bytes@.len() + LINE_BYTES <= usize::MAX,
            dumper.wf(),
            dumper.offset() % 16 == 0,
            dumper.offset() + dumper.pending().len() == i,
            i > 0 ==> dumper.pending().len() > 0,
            dumper.pending() == bytes@.subrange(dumper.offset() as int, i as int),
            dumper.shipped() == dump_text(bytes@.take(dumper.offset() as int)),
        decreases bytes.len() - i,
    {
        let ghost before = dumper;
        dumper.add_byte(bytes[i]);
        proof {
            if before.pending().len() == LINE_BYTES {
                lemma_dump_text_step(bytes@.take(i as int), before.offset());
                assert(bytes@.take(i as int).take(before.offset() as int) =~= bytes@.take(
                    before.offset() as int,
                ));
                assert(bytes@.take(i as int).skip(before.offset() as int) =~= before.pending());
                assert(bytes@.take(dumper.offset() as int) =~= bytes@.take(i as int));
                assert(dumper.pending() =~= bytes@.subrange(dumper.offset() as int, i + 1));
            } else {
                assert(dumper.pending() =~= bytes@.subrange(dumper.offset() as int, i + 1));
            }
        }
        i = i + 1;
    }
    proof {
        if i > 0 {
            lemma_dump_text_step(bytes@, dumper.offset());
            assert(bytes@.skip(dumper.offset() as int) =~= dumper.pending());
        } else {
            assert(bytes@.take(0) =~= Seq::<u8>::empty());
        }
    }
    dumper.finish()
}

/// Where `start` is a multiple of sixteen and at least one and at most
/// sixteen bytes follow it, the dump ends with the line that starts there.
proof fn lemma_dump_text_step(bytes: Seq<u8>, start: nat)
    requires
        start % 16 == 0,
        start < bytes.len() <= start + 16,
    ensures
        dump_text(bytes) == dump_text(bytes.take(start as int)) + dump_line(
            start,
            bytes.skip(start as int),
        ),
{
    assert(last_line_start(bytes.len()) == start);
}

impl HexDump for [u8] {
    open spec fn dumped_bytes(&self) -> Seq<u8> {
        self@
    }

    fn dump(&self) -> (text: String) {
        hex_dump(self)
    }
}

impl HexDump for Vec<u8> {
    open spec fn dumped_bytes(&self) -> Seq<u8> {
        self@
    }

    fn dump(&self) -> (text: String) {
        hex_dump(self.as_slice())
    }
}

} // verus!
