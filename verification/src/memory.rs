//! The flat 4096-byte address space: the built-in glyph font table, the
//! loaded program image, and bounds-checked byte and word access.

use vstd::prelude::*;

use crate::fault::Chip8Error;

verus! {

/// Number of addressable bytes.
pub const MEMORY_SIZE: usize = 4096;

/// Size of the built-in font table: 16 glyphs of 5 bytes each.
pub const FONT_BYTES: usize = 80;

/// The address space, together with where the program image and the font
/// table sit in it.
pub struct Memory {
    /// First address of the loaded program; the conventional value is 0x200.
    pub rom_start: u16,
    /// One past the last address the loader wrote.
    pub rom_end: u16,
    /// First address of the font table; the conventional value is 0x50.
    pub font_start: u16,
    /// The bytes themselves.
    pub data: Vec<u8>,
}

/// The 16 five-byte glyph bitmaps for the hexadecimal digits 0 through F, in
/// order, as the architecture mandates them.
pub open spec fn font_table() -> Seq<u8> {
    seq![
        0xF0u8, 0x90, 0x90, 0x90, 0xF0,
        0x20, 0x60, 0x20, 0x20, 0x70,
        0xF0, 0x10, 0xF0, 0x80, 0xF0,
        0xF0, 0x10, 0xF0, 0x10, 0xF0,
        0x90, 0x90, 0xF0, 0x10, 0x10,
        0xF0, 0x80, 0xF0, 0x10, 0xF0,
        0xF0, 0x80, 0xF0, 0x90, 0xF0,
        0xF0, 0x10, 0x20, 0x40, 0x40,
        0xF0, 0x90, 0xF0, 0x90, 0xF0,
        0xF0, 0x90, 0xF0, 0x10, 0xF0,
        0xF0, 0x90, 0xF0, 0x90, 0x90,
        0xE0, 0x90, 0xE0, 0x90, 0xE0,
        0xF0, 0x80, 0x80, 0x80, 0xF0,
        0xE0, 0x90, 0x90, 0x90, 0xE0,
        0xF0, 0x80, 0xF0, 0x80, 0xF0,
        0xF0, 0x80, 0xF0, 0x80, 0x80,
    ]
}

/// `mem` with `bytes` written over the range that starts at `start`; all other
/// positions keep their old value.
pub open spec fn spliced(mem: Seq<u8>, start: int, bytes: Seq<u8>) -> Seq<u8> {
    Seq::new(
        mem.len(),
        |i: int|
            if start <= i < start + bytes.len() {
                bytes[i - start]
            } else {
                mem[i]
            },
    )
}

/// The big-endian 16-bit word formed by the bytes at `a` and `a + 1`.
pub open spec fn word_at(mem: Seq<u8>, a: int) -> u16 {
    ((mem[a] as u16) << 8u16) | (mem[a + 1] as u16)
}

/// How a finished load relates the memory before to the memory after: when
/// the image fits, its bytes sit at the load address and the end of the
/// occupied region is recorded; when it does not, nothing changed and the
/// load reported `LoadTooLarge`.
pub open spec fn load_rel(s: Memory, t: Memory, rom: Seq<u8>, r: Result<(), Chip8Error>) -> bool {
    if s.rom_start + rom.len() <= 4096 {
        &&& r == Ok::<(), Chip8Error>(())
        &&& t.data@ == spliced(s.data@, s.rom_start as int, rom)
        &&& t.rom_start == s.rom_start
        &&& t.rom_end == s.rom_start + rom.len()
        &&& t.font_start == s.font_start
    } else {
        &&& r == Err::<(), Chip8Error>(Chip8Error::LoadTooLarge)
        &&& t == s
    }
}

/// Appends the five bytes of one glyph.
fn push_glyph(v: &mut Vec<u8>, a: u8, b: u8, c: u8, d: u8, e: u8)
    ensures
        final(v)@ == old(v)@ + seq![a, b, c, d, e],
{
    v.push(a);
    v.push(b);
    v.push(c);
    v.push(d);
    v.push(e);
    proof {
        assert(v@ =~= old(v)@ + seq![a, b, c, d, e]);
    }
}

/// The font table as bytes.
fn font_data() -> (v: Vec<u8>)
    ensures
        v@ == font_table(),
{
    let mut v: Vec<u8> = Vec::new();
    push_glyph(&mut v, 0xF0, 0x90, 0x90, 0x90, 0xF0);
    push_glyph(&mut v, 0x20, 0x60, 0x20, 0x20, 0x70);
    push_glyph(&mut v, 0xF0, 0x10, 0xF0, 0x80, 0xF0);
    push_glyph(&mut v, 0xF0, 0x10, 0xF0, 0x10, 0xF0);
    push_glyph(&mut v, 0x90, 0x90, 0xF0, 0x10, 0x10);
    push_glyph(&mut v, 0xF0, 0x80, 0xF0, 0x10, 0xF0);
    push_glyph(&mut v, 0xF0, 0x80, 0xF0, 0x90, 0xF0);
    push_glyph(&mut v, 0xF0, 0x10, 0x20, 0x40, 0x40);
    push_glyph(&mut v, 0xF0, 0x90, 0xF0, 0x90, 0xF0);
    push_glyph(&mut v, 0xF0, 0x90, 0xF0, 0x10, 0xF0);
    push_glyph(&mut v, 0xF0, 0x90, 0xF0, 0x90, 0x90);
    push_glyph(&mut v, 0xE0, 0x90, 0xE0, 0x90, 0xE0);
    push_glyph(&mut v, 0xF0, 0x80, 0x80, 0x80, 0xF0);
    push_glyph(&mut v, 0xE0, 0x90, 0x90, 0x90, 0xE0);
    push_glyph(&mut v, 0xF0, 0x80, 0xF0, 0x80, 0xF0);
    push_glyph(&mut v, 0xF0, 0x80, 0xF0, 0x80, 0x80);
    proof {
        assert(v@ =~= font_table());
    }
    v
}

impl Memory {
    /// The address space holds exactly 4096 bytes, the recorded program
    /// region lies inside it, and the font table fits where it was placed.
    pub open spec fn wf(self) -> bool {
        &&& self.data@.len() == 4096
        &&& self.rom_start <= self.rom_end <= 4096
        &&& self.font_start + 80 <= 4096
    }

    /// The bytes of the occupied program region.
    pub open spec fn rom_bytes(self) -> Seq<u8> {
        self.data@.subrange(self.rom_start as int, self.rom_end as int)
    }

    /// Fresh memory: everything zero but the font table, which sits at
    /// `font_start`; the program region starts empty at `rom_start`.
    pub fn new(rom_start: u16, font_start: u16) -> (r: Memory)
        requires
            rom_start <= 4096,
            font_start + 80 <= 4096,
        ensures
            r.wf(),
            r.rom_start == rom_start,
            r.rom_end == rom_start,
            r.font_start == font_start,
            forall|k: int| 0 <= k < 80 ==> r.data@[font_start + k] == font_table()[k],
            forall|a: int|
                0 <= a < 4096 && !(font_start <= a < font_start + 80) ==> r.data@[a] == 0,
    {
        let mut data: Vec<u8> = vec![0; MEMORY_SIZE];
        let font = font_data();
        let mut k: usize = 0;
        while k < FONT_BYTES
            invariant
                k <= 80,
                font_start + 80 <= 4096,
                font@ == font_table(),
                data@.len() == 4096,
                forall|j: int| 0 <= j < k ==> data@[font_start + j] == font_table()[j],
                forall|a: int|
                    0 <= a < 4096 && !(font_start <= a < font_start + k) ==> data@[a] == 0,
            decreases 80 - k,
        {
            data.set(font_start as usize + k, font[k]);
            k += 1;
        }
        Memory { rom_start, rom_end: rom_start, font_start, data }
    }

    /// The byte at `address`, or `OutOfBounds` past the end of memory.
    pub fn get_byte_at(&self, address: u16) -> (r: Result<u8, Chip8Error>)
        requires
            self.wf(),
        ensures
            address < 4096 ==> r == Ok::<u8, Chip8Error>(self.data@[address as int]),
            address >= 4096 ==> r == Err::<u8, Chip8Error>(Chip8Error::OutOfBounds),
    {
        if address < 4096 {
            Ok(self.data[address as usize])
        } else {
            Err(Chip8Error::OutOfBounds)
        }
    }

    /// Writes `value` at `address`, or reports `OutOfBounds` past the end of
    /// memory.
    pub fn write_byte(&mut self, address: u16, value: u8) -> (r: Result<(), Chip8Error>)
        requires
            old(self).wf(),
        ensures
            final(self).wf(),
            address < 4096 ==> r == Ok::<(), Chip8Error>(()) && final(self).data@ == old(
                self,
            ).data@.update(address as int, value) && final(self).rom_start == old(self).rom_start
                && final(self).rom_end == old(self).rom_end && final(self).font_start == old(
                self,
            ).font_start,
            address >= 4096 ==> r == Err::<(), Chip8Error>(Chip8Error::OutOfBounds) && *final(self)
                == *old(self),
    {
        if address < 4096 {
            self.data.set(address as usize, value);
            Ok(())
        } else {
            Err(Chip8Error::OutOfBounds)
        }
    }

    /// The two bytes at `address` and `address + 1`, packed big-endian into an
    /// instruction word; `OutOfBounds` when the pair does not fit below the
    /// end of memory.
    pub fn get_instruction_at(&self, address: u16) -> (r: Result<u16, Chip8Error>)
        requires
            self.wf(),
        ensures
            address + 1 < 4096 ==> r == Ok::<u16, Chip8Error>(word_at(self.data@, address as int)),
            address + 1 >= 4096 ==> r == Err::<u16, Chip8Error>(Chip8Error::OutOfBounds),
    {
        if address < 4095 {
            let hi = self.data[address as usize];
            let lo = self.data[address as usize + 1];
            Ok(((hi as u16) << 8u16) | (lo as u16))
        } else {
            Err(Chip8Error::OutOfBounds)
        }
    }

    /// Writes the program image at the load address and records the end of
    /// the occupied region; an image that would run past the end of memory is
    /// rejected whole with `LoadTooLarge`.
    pub fn load_rom(&mut self, rom: Vec<u8>) -> (r: Result<(), Chip8Error>)
        requires
            old(self).wf(),
        ensures
            final(self).wf(),
            load_rel(*old(self), *final(self), rom@, r),
    {
        if rom.len() > 4096 - self.rom_start as usize {
            return Err(Chip8Error::LoadTooLarge);
        }
        let start = self.rom_start as usize;
        let mut k: usize = 0;
        while k < rom.len()
            invariant
                k <= rom@.len(),
                start == old(self).rom_start as int,
                start + rom@.len() <= 4096,
                self.data@.len() == 4096,
                self.rom_start == old(self).rom_start,
                self.rom_end == old(self).rom_end,
                self.font_start == old(self).font_start,
                forall|i: int| 0 <= i < k ==> self.data@[start + i] == rom@[i],
                forall|a: int|
                    0 <= a < 4096 && !(start <= a < start + k) ==> self.data@[a] == old(
                        self,
                    ).data@[a],
            decreases rom@.len() - k,
        {
            self.data.set(start + k, rom[k]);
            k += 1;
        }
        self.rom_end = self.rom_start + rom.len() as u16;
        proof {
            assert(self.data@ =~= spliced(old(self).data@, start as int, rom@));
        }
        Ok(())
    }

    /// A copy of the bytes of the occupied program region.
    pub fn get_rom(&self) -> (r: Vec<u8>)
        requires
            self.wf(),
        ensures
            r@ == self.rom_bytes(),
    {
        let mut out: Vec<u8> = Vec::new();
        let mut k: usize = self.rom_start as usize;
        while k < self.rom_end as usize
            invariant
                self.wf(),
                self.rom_start as int <= k <= self.rom_end as int,
                out@ == self.data@.subrange(self.rom_start as int, k as int),
            decreases self.rom_end as int - k,
        {
            out.push(self.data[k]);
            proof {
                assert(out@ =~= self.data@.subrange(self.rom_start as int, k + 1 as int));
            }
            k += 1;
        }
        out
    }
}

/// Loading a program and reading the occupied region back reproduces exactly
/// the bytes that were loaded.
pub proof fn lemma_load_round_trip(pre: Memory, post: Memory, rom: Seq<u8>)
    requires
        pre.wf(),
        pre.rom_start + rom.len() <= 4096,
        load_rel(pre, post, rom, Ok(())),
    ensures
        post.rom_bytes() == rom,
{
    assert(post.rom_bytes() =~= rom);
}

/// An implementation of `Default` that matches the conventional layout: the
/// program loads at 0x200 and the font table sits at 0x50.
impl Default for Memory {
    fn default() -> (r: Memory)
        ensures
            r.wf(),
            r.rom_start == 0x200,
            r.rom_end == 0x200,
            r.font_start == 0x50,
            forall|k: int| 0 <= k < 80 ==> r.data@[0x50 + k] == font_table()[k],
            forall|a: int| 0 <= a < 4096 && !(0x50 <= a < 0xA0) ==> r.data@[a] == 0,
    {
        Memory::new(0x200, 0x50)
    }
}

} // verus!
