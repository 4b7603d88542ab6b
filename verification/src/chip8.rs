//! The execution engine: one machine owning memory, registers and the
//! framebuffer, stepping one fetch-decode-execute cycle at a time.

use vstd::prelude::*;

use crate::cpu::Cpu;
use crate::display::{blank_grid, grid_after, grid_collision, Display};
use crate::fault::Chip8Error;
use crate::memory::{load_rel, spliced, word_at, Memory};
use crate::opcode::{opcode_wf, spec_decode, Opcode};

verus! {

/// The engine's operating state. A fatal condition moves it to `Halted`,
/// which is terminal; the blocking key-wait instruction is expressed as the
/// explicit `AwaitingKey` state that the caller observes and re-drives.
#[derive(Clone, Copy, Debug, PartialEq, Eq, Structural)]
pub enum Status {
    /// Instructions execute normally.
    Running,
    /// A key-wait instruction is pending; the next step with a key down
    /// stores that key in the named register and resumes.
    AwaitingKey(u8),
    /// A fatal condition was hit; no instruction resumes from here.
    Halted(Chip8Error),
}

/// One whole virtual machine.
pub struct Chip8 {
    /// The register file.
    pub cpu: Cpu,
    /// The address space.
    pub memory: Memory,
    /// The framebuffer.
    pub display: Display,
    /// Bit k set means key k (0x0 through 0xF) is currently down; the host
    /// refreshes this from its input source.
    pub keys: u16,
    /// State of the pseudo-random generator behind the random-masked-load
    /// instruction.
    pub rng: u16,
    /// Running, awaiting a key, or halted.
    pub status: Status,
}

/// A 16-bit value reduced to the 12 significant bits of program addressing.
pub open spec fn wrap12(a: int) -> u16 {
    (a % 4096) as u16
}

/// Whether key `k` is down in the bitmask `keys`.
pub open spec fn key_down(keys: u16, k: u16) -> bool
    recommends
        k < 16,
{
    (keys >> k) & 1 == 1
}

/// The lowest-numbered key at or above `k` that is down, if any.
pub open spec fn first_key_from(keys: u16, k: int) -> Option<u16>
    decreases 16 - k,
{
    if k < 0 || k >= 16 {
        None
    } else if key_down(keys, k as u16) {
        Some(k as u16)
    } else {
        first_key_from(keys, k + 1)
    }
}

/// The lowest-numbered key that is down, if any: the key a key-wait
/// instruction reads.
pub open spec fn first_key(keys: u16) -> Option<u16> {
    first_key_from(keys, 0)
}

/// The linear-congruential successor of a generator state.
pub open spec fn next_rng(r: u16) -> u16 {
    ((r * 25173 + 13849) % 65536) as u16
}

/// A timer one step later: down by one, floored at zero.
pub open spec fn dec_timer(a: u8) -> u8 {
    if a > 0 {
        (a - 1) as u8
    } else {
        0
    }
}

/// Byte addition modulo 256.
pub open spec fn add8(a: u8, b: u8) -> u8 {
    ((a + b) % 256) as u8
}

/// Byte subtraction modulo 256.
pub open spec fn sub8(a: u8, b: u8) -> u8 {
    if a >= b {
        (a - b) as u8
    } else {
        (a + 256 - b) as u8
    }
}

/// `c` with the program counter replaced.
pub open spec fn cpu_with_pc(c: Cpu, npc: u16) -> Cpu {
    Cpu { v: c.v, i: c.i, pc: npc, dt: c.dt, st: c.st, stack: c.stack }
}

/// `c` with the index register and the program counter replaced.
pub open spec fn cpu_with_i_pc(c: Cpu, ni: u16, npc: u16) -> Cpu {
    Cpu { v: c.v, i: ni, pc: npc, dt: c.dt, st: c.st, stack: c.stack }
}

/// `c` with the delay timer and the program counter replaced.
pub open spec fn cpu_with_dt_pc(c: Cpu, ndt: u8, npc: u16) -> Cpu {
    Cpu { v: c.v, i: c.i, pc: npc, dt: ndt, st: c.st, stack: c.stack }
}

/// `c` with the sound timer and the program counter replaced.
pub open spec fn cpu_with_st_pc(c: Cpu, nst: u8, npc: u16) -> Cpu {
    Cpu { v: c.v, i: c.i, pc: npc, dt: c.dt, st: nst, stack: c.stack }
}

/// `c` with both timers replaced.
pub open spec fn cpu_with_timers(c: Cpu, ndt: u8, nst: u8) -> Cpu {
    Cpu { v: c.v, i: c.i, pc: c.pc, dt: ndt, st: nst, stack: c.stack }
}

/// `s` with the register file replaced.
pub open spec fn chip_with_cpu(s: Chip8, c: Cpu) -> Chip8 {
    Chip8 { cpu: c, memory: s.memory, display: s.display, keys: s.keys, rng: s.rng, status: s.status }
}

/// `s` with the operating state replaced.
pub open spec fn chip_with_status(s: Chip8, st: Status) -> Chip8 {
    Chip8 { cpu: s.cpu, memory: s.memory, display: s.display, keys: s.keys, rng: s.rng, status: st }
}

/// The machine hit the fatal condition `e`: nothing changed but the
/// operating state, now `Halted(e)`.
pub open spec fn halted_with(s: Chip8, t: Chip8, e: Chip8Error) -> bool {
    t == chip_with_status(s, Status::Halted(e))
}

/// Only the general registers and the program counter changed, to `v2` and
/// `npc`.
pub open spec fn with_regs(s: Chip8, t: Chip8, v2: Seq<u8>, npc: u16) -> bool {
    &&& t.cpu.v@ == v2
    &&& t.cpu.pc == npc
    &&& t.cpu.i == s.cpu.i
    &&& t.cpu.dt == s.cpu.dt
    &&& t.cpu.st == s.cpu.st
    &&& t.cpu.stack == s.cpu.stack
    &&& t.memory == s.memory
    &&& t.display == s.display
    &&& t.keys == s.keys
    &&& t.rng == s.rng
    &&& t.status == s.status
}

/// A successful step.
pub open spec fn res_ok() -> Result<(), Chip8Error> {
    Ok(())
}

/// The exact effect of executing one decoded instruction `op` on the machine
/// `s`, yielding the machine `t` and the report `r`. Unless the instruction
/// itself redirects the program counter, it advances by exactly 2, reduced to
/// 12 bits.
pub open spec fn execute_rel(s: Chip8, t: Chip8, op: Opcode, r: Result<(), Chip8Error>) -> bool {
    let pc2 = wrap12(s.cpu.pc + 2);
    let pc4 = wrap12(s.cpu.pc + 4);
    let v = s.cpu.v@;
    match op {
        Opcode::CLS => {
            &&& r == res_ok()
            &&& t.cpu == cpu_with_pc(s.cpu, pc2)
            &&& t.display.pixels@ == blank_grid()
            &&& t.memory == s.memory
            &&& t.keys == s.keys
            &&& t.rng == s.rng
            &&& t.status == s.status
        },
        Opcode::RET => {
            if s.cpu.stack@.len() == 0 {
                r == Err::<(), Chip8Error>(Chip8Error::StackUnderflow) && halted_with(
                    s,
                    t,
                    Chip8Error::StackUnderflow,
                )
            } else {
                &&& r == res_ok()
                &&& t.cpu.stack@ == s.cpu.stack@.drop_last()
                &&& t.cpu.pc == s.cpu.stack@.last()
                &&& t.cpu.v == s.cpu.v
                &&& t.cpu.i == s.cpu.i
                &&& t.cpu.dt == s.cpu.dt
                &&& t.cpu.st == s.cpu.st
                &&& t.memory == s.memory
                &&& t.display == s.display
                &&& t.keys == s.keys
                &&& t.rng == s.rng
                &&& t.status == s.status
            }
        },
        Opcode::JP(a) => r == res_ok() && t == chip_with_cpu(s, cpu_with_pc(s.cpu, a)),
        Opcode::CALL(a) => {
            if s.cpu.stack@.len() >= 16 {
                r == Err::<(), Chip8Error>(Chip8Error::StackOverflow) && halted_with(
                    s,
                    t,
                    Chip8Error::StackOverflow,
                )
            } else {
                &&& r == res_ok()
                &&& t.cpu.stack@ == s.cpu.stack@.push(pc2)
                &&& t.cpu.pc == a
                &&& t.cpu.v == s.cpu.v
                &&& t.cpu.i == s.cpu.i
                &&& t.cpu.dt == s.cpu.dt
                &&& t.cpu.st == s.cpu.st
                &&& t.memory == s.memory
                &&& t.display == s.display
                &&& t.keys == s.keys
                &&& t.rng == s.rng
                &&& t.status == s.status
            }
        },
        Opcode::SEx(x, kk) => {
            let npc = if v[x as int] == kk {
                pc4
            } else {
                pc2
            };
            r == res_ok() && t == chip_with_cpu(s, cpu_with_pc(s.cpu, npc))
        },
        Opcode::SNEx(x, kk) => {
            let npc = if v[x as int] != kk {
                pc4
            } else {
                pc2
            };
            r == res_ok() && t == chip_with_cpu(s, cpu_with_pc(s.cpu, npc))
        },
        Opcode::SExy(x, y) => {
            let npc = if v[x as int] == v[y as int] {
                pc4
            } else {
                pc2
            };
            r == res_ok() && t == chip_with_cpu(s, cpu_with_pc(s.cpu, npc))
        },
        Opcode::SNExy(x, y) => {
            let npc = if v[x as int] != v[y as int] {
                pc4
            } else {
                pc2
            };
            r == res_ok() && t == chip_with_cpu(s, cpu_with_pc(s.cpu, npc))
        },
        Opcode::LDx(x, kk) => r == res_ok() && with_regs(s, t, v.update(x as int, kk), pc2),
        Opcode::ADDx(x, kk) => r == res_ok() && with_regs(
            s,
            t,
            v.update(x as int, add8(v[x as int], kk)),
            pc2,
        ),
        Opcode::LDxy(x, y) => r == res_ok() && with_regs(s, t, v.update(x as int, v[y as int]), pc2),
        Opcode::ORxy(x, y) => r == res_ok() && with_regs(
            s,
            t,
            v.update(x as int, v[x as int] | v[y as int]),
            pc2,
        ),
        Opcode::ANDxy(x, y) => r == res_ok() && with_regs(
            s,
            t,
            v.update(x as int, v[x as int] & v[y as int]),
            pc2,
        ),
        Opcode::XORxy(x, y) => r == res_ok() && with_regs(
            s,
            t,
            v.update(x as int, v[x as int] ^ v[y as int]),
            pc2,
        ),
        Opcode::ADDxy(x, y) => {
            let sum = v[x as int] + v[y as int];
            let flag: u8 = if sum > 255 {
                1
            } else {
                0
            };
            r == res_ok() && with_regs(
                s,
                t,
                v.update(x as int, (sum % 256) as u8).update(15, flag),
                pc2,
            )
        },
        Opcode::SUBxy(x, y) => {
            let flag: u8 = if v[x as int] >= v[y as int] {
                1
            } else {
                0
            };
            r == res_ok() && with_regs(
                s,
                t,
                v.update(x as int, sub8(v[x as int], v[y as int])).update(15, flag),
                pc2,
            )
        },
        Opcode::SUBNxy(x, y) => {
            let flag: u8 = if v[y as int] >= v[x as int] {
                1
            } else {
                0
            };
            r == res_ok() && with_regs(
                s,
                t,
                v.update(x as int, sub8(v[y as int], v[x as int])).update(15, flag),
                pc2,
            )
        },
        Opcode::SHRxy(x, _y) => {
            let vx = v[x as int];
            r == res_ok() && with_regs(
                s,
                t,
                v.update(x as int, vx >> 1u8).update(15, vx & 1),
                pc2,
            )
        },
        Opcode::SHLxy(x, _y) => {
            let vx = v[x as int];
            r == res_ok() && with_regs(
                s,
                t,
                v.update(x as int, vx << 1u8).update(15, vx >> 7u8),
                pc2,
            )
        },
        Opcode::LDI(a) => r == res_ok() && t == chip_with_cpu(s, cpu_with_i_pc(s.cpu, a, pc2)),
        Opcode::JPV0(a) => r == res_ok() && t == chip_with_cpu(
            s,
            cpu_with_pc(s.cpu, wrap12(a + v[0])),
        ),
        Opcode::RNDx(x, kk) => {
            let nr = next_rng(s.rng);
            &&& r == res_ok()
            &&& t.cpu.v@ == v.update(x as int, ((nr % 256) as u8) & kk)
            &&& t.cpu.pc == pc2
            &&& t.cpu.i == s.cpu.i
            &&& t.cpu.dt == s.cpu.dt
            &&& t.cpu.st == s.cpu.st
            &&& t.cpu.stack == s.cpu.stack
            &&& t.memory == s.memory
            &&& t.display == s.display
            &&& t.keys == s.keys
            &&& t.rng == nr
            &&& t.status == s.status
        },
        Opcode::DRWxy(x, y, n) => {
            if s.cpu.i + n > 4096 {
                r == Err::<(), Chip8Error>(Chip8Error::OutOfBounds) && halted_with(
                    s,
                    t,
                    Chip8Error::OutOfBounds,
                )
            } else {
                let sprite = s.memory.data@.subrange(s.cpu.i as int, s.cpu.i + n);
                let x0 = (v[x as int] as int) % 64;
                let y0 = (v[y as int] as int) % 32;
                let coll = grid_collision(s.display.pixels@, sprite, x0, y0, n as int);
                let flag: u8 = if coll {
                    1
                } else {
                    0
                };
                &&& r == res_ok()
                &&& t.display.pixels@ == grid_after(s.display.pixels@, sprite, x0, y0, n as int)
                &&& t.cpu.v@ == v.update(15, flag)
                &&& t.cpu.pc == pc2
                &&& t.cpu.i == s.cpu.i
                &&& t.cpu.dt == s.cpu.dt
                &&& t.cpu.st == s.cpu.st
                &&& t.cpu.stack == s.cpu.stack
                &&& t.memory == s.memory
                &&& t.keys == s.keys
                &&& t.rng == s.rng
                &&& t.status == s.status
            }
        },
        Opcode::SKPx(x) => {
            let npc = if key_down(s.keys, (v[x as int] & 0xF) as u16) {
                pc4
            } else {
                pc2
            };
            r == res_ok() && t == chip_with_cpu(s, cpu_with_pc(s.cpu, npc))
        },
        Opcode::SKNPx(x) => {
            let npc = if !key_down(s.keys, (v[x as int] & 0xF) as u16) {
                pc4
            } else {
                pc2
            };
            r == res_ok() && t == chip_with_cpu(s, cpu_with_pc(s.cpu, npc))
        },
        Opcode::LDxDT(x) => r == res_ok() && with_regs(s, t, v.update(x as int, s.cpu.dt), pc2),
        Opcode::LDxK(x) => match first_key(s.keys) {
            Some(k) => r == res_ok() && with_regs(s, t, v.update(x as int, k as u8), pc2),
            None => r == res_ok() && t == chip_with_status(s, Status::AwaitingKey(x)),
        },
        Opcode::LDDTx(x) => r == res_ok() && t == chip_with_cpu(
            s,
            cpu_with_dt_pc(s.cpu, v[x as int], pc2),
        ),
        Opcode::LDSTx(x) => r == res_ok() && t == chip_with_cpu(
            s,
            cpu_with_st_pc(s.cpu, v[x as int], pc2),
        ),
        Opcode::ADDIx(x) => r == res_ok() && t == chip_with_cpu(
            s,
            cpu_with_i_pc(s.cpu, wrap12(s.cpu.i + v[x as int]), pc2),
        ),
        Opcode::LDFx(x) => {
            let glyph = (v[x as int] & 0xF) as int;
            let ni = (s.memory.font_start + 5 * glyph) as u16;
            r == res_ok() && t == chip_with_cpu(s, cpu_with_i_pc(s.cpu, ni, pc2))
        },
        Opcode::LDBx(x) => {
            if s.cpu.i + 3 > 4096 {
                r == Err::<(), Chip8Error>(Chip8Error::OutOfBounds) && halted_with(
                    s,
                    t,
                    Chip8Error::OutOfBounds,
                )
            } else {
                let i0 = s.cpu.i as int;
                let val = v[x as int];
                &&& r == res_ok()
                &&& t.memory.data@ == s.memory.data@.update(i0, val / 100).update(
                    i0 + 1,
                    (val / 10) % 10,
                ).update(i0 + 2, val % 10)
                &&& t.memory.rom_start == s.memory.rom_start
                &&& t.memory.rom_end == s.memory.rom_end
                &&& t.memory.font_start == s.memory.font_start
                &&& t.cpu == cpu_with_pc(s.cpu, pc2)
                &&& t.display == s.display
                &&& t.keys == s.keys
                &&& t.rng == s.rng
                &&& t.status == s.status
            }
        },
        Opcode::LDIx(x) => {
            if s.cpu.i + x + 1 > 4096 {
                r == Err::<(), Chip8Error>(Chip8Error::OutOfBounds) && halted_with(
                    s,
                    t,
                    Chip8Error::OutOfBounds,
                )
            } else {
                &&& r == res_ok()
                &&& t.memory.data@ == spliced(
                    s.memory.data@,
                    s.cpu.i as int,
                    v.subrange(0, x + 1),
                )
                &&& t.memory.rom_start == s.memory.rom_start
                &&& t.memory.rom_end == s.memory.rom_end
                &&& t.memory.font_start == s.memory.font_start
                &&& t.cpu == cpu_with_pc(s.cpu, pc2)
                &&& t.display == s.display
                &&& t.keys == s.keys
                &&& t.rng == s.rng
                &&& t.status == s.status
            }
        },
        Opcode::LDxI(x) => {
            if s.cpu.i + x + 1 > 4096 {
                r == Err::<(), Chip8Error>(Chip8Error::OutOfBounds) && halted_with(
                    s,
                    t,
                    Chip8Error::OutOfBounds,
                )
            } else {
                let bytes = s.memory.data@.subrange(s.cpu.i as int, s.cpu.i + x + 1);
                r == res_ok() && with_regs(s, t, spliced(v, 0, bytes), pc2)
            }
        },
        Opcode::Unknown(w) => {
            r == Err::<(), Chip8Error>(Chip8Error::UnknownInstruction(w)) && halted_with(
                s,
                t,
                Chip8Error::UnknownInstruction(w),
            )
        },
    }
}

/// How one whole step relates the machine before to the machine after: a
/// halted machine reports its fault and does not move; an awaiting machine
/// resumes exactly when a key is down; a running machine fetches at the
/// program counter, decodes, and executes.
pub open spec fn tick_rel(s: Chip8, t: Chip8, r: Result<(), Chip8Error>) -> bool {
    match s.status {
        Status::Halted(e) => r == Err::<(), Chip8Error>(e) && t == s,
        Status::AwaitingKey(x) => match first_key(s.keys) {
            Some(k) => {
                &&& r == res_ok()
                &&& with_regs_resumed(s, t, s.cpu.v@.update(x as int, k as u8), wrap12(
                    s.cpu.pc + 2,
                ))
            },
            None => r == res_ok() && t == s,
        },
        Status::Running => {
            if s.cpu.pc + 1 >= 4096 {
                r == Err::<(), Chip8Error>(Chip8Error::OutOfBounds) && halted_with(
                    s,
                    t,
                    Chip8Error::OutOfBounds,
                )
            } else {
                execute_rel(s, t, spec_decode(word_at(s.memory.data@, s.cpu.pc as int)), r)
            }
        },
    }
}

/// Only the general registers and the program counter changed, and the
/// machine went back to `Running`.
pub open spec fn with_regs_resumed(s: Chip8, t: Chip8, v2: Seq<u8>, npc: u16) -> bool {
    &&& t.cpu.v@ == v2
    &&& t.cpu.pc == npc
    &&& t.cpu.i == s.cpu.i
    &&& t.cpu.dt == s.cpu.dt
    &&& t.cpu.st == s.cpu.st
    &&& t.cpu.stack == s.cpu.stack
    &&& t.memory == s.memory
    &&& t.display == s.display
    &&& t.keys == s.keys
    &&& t.rng == s.rng
    &&& t.status == Status::Running
}

/// A register index drawn from the low nibble of a byte is always a valid
/// key number and glyph number.
proof fn lemma_low_nibble(a: u8)
    by (bit_vector)
    ensures
        a & 0xF < 16,
{
}

/// The lowest down key, scanned upward from key 0.
fn first_down_key(keys: u16) -> (r: Option<u16>)
    ensures
        r == first_key(keys),
{
    let mut k: u16 = 0;
    while k < 16
        invariant
            k <= 16,
            first_key(keys) == first_key_from(keys, k as int),
        decreases 16 - k,
    {
        if ((keys >> k) & 1) == 1 {
            return Some(k);
        }
        k += 1;
    }
    None
}

impl Chip8 {
    /// Every component is well formed, and an awaited register index is a
    /// real register.
    pub open spec fn wf(self) -> bool {
        &&& self.cpu.wf()
        &&& self.memory.wf()
        &&& self.display.wf()
        &&& match self.status {
            Status::AwaitingKey(x) => x < 16,
            _ => true,
        }
    }

    /// A fresh machine: cleared registers and display, the font table in
    /// place, no program yet, the program counter at the load address.
    pub fn new(rom_start: u16, font_start: u16) -> (r: Chip8)
        requires
            rom_start < 4096,
            font_start + 80 <= 4096,
        ensures
            r.wf(),
            r.cpu.v@ == Seq::new(16, |k: int| 0u8),
            r.cpu.i == 0,
            r.cpu.pc == rom_start,
            r.cpu.dt == 0,
            r.cpu.st == 0,
            r.cpu.stack@ == Seq::<u16>::empty(),
            r.memory.rom_start == rom_start,
            r.memory.rom_end == rom_start,
            r.memory.font_start == font_start,
            forall|k: int|
                0 <= k < 80 ==> r.memory.data@[font_start + k] == crate::memory::font_table()[k],
            forall|a: int|
                0 <= a < 4096 && !(font_start <= a < font_start + 80) ==> r.memory.data@[a] == 0,
            r.display.pixels@ == blank_grid(),
            r.keys == 0,
            r.rng == 1,
            r.status == Status::Running,
    {
        Chip8 {
            cpu: Cpu::new(rom_start),
            memory: Memory::new(rom_start, font_start),
            display: Display::new(),
            keys: 0,
            rng: 1,
            status: Status::Running,
        }
    }

    /// Loads a program image into memory; the machine itself does not move.
    pub fn load_rom(&mut self, rom: Vec<u8>) -> (r: Result<(), Chip8Error>)
        requires
            old(self).wf(),
        ensures
            final(self).wf(),
            load_rel(old(self).memory, final(self).memory, rom@, r),
            final(self).cpu == old(self).cpu,
            final(self).display == old(self).display,
            final(self).keys == old(self).keys,
            final(self).rng == old(self).rng,
            final(self).status == old(self).status,
    {
        self.memory.load_rom(rom)
    }

    /// Replaces the key-down bitmask, normally once per host frame.
    pub fn set_keys(&mut self, keys: u16)
        ensures
            final(self).keys == keys,
            final(self).cpu == old(self).cpu,
            final(self).memory == old(self).memory,
            final(self).display == old(self).display,
            final(self).rng == old(self).rng,
            final(self).status == old(self).status,
    {
        self.keys = keys;
    }

    /// Reseeds the pseudo-random generator.
    pub fn set_rng_seed(&mut self, seed: u16)
        ensures
            final(self).rng == seed,
            final(self).cpu == old(self).cpu,
            final(self).memory == old(self).memory,
            final(self).display == old(self).display,
            final(self).keys == old(self).keys,
            final(self).status == old(self).status,
    {
        self.rng = seed;
    }

    /// The external time source calls this at its fixed cadence: both timers
    /// go down by one, floored at zero; nothing else moves.
    pub fn tick_timers(&mut self)
        requires
            old(self).wf(),
        ensures
            final(self).wf(),
            *final(self) == chip_with_cpu(
                *old(self),
                cpu_with_timers(
                    old(self).cpu,
                    dec_timer(old(self).cpu.dt),
                    dec_timer(old(self).cpu.st),
                ),
            ),
    {
        if self.cpu.dt > 0 {
            self.cpu.dt = self.cpu.dt - 1;
        }
        if self.cpu.st > 0 {
            self.cpu.st = self.cpu.st - 1;
        }
    }

    /// Applies one decoded instruction to the machine, exactly as
    /// `execute_rel` states, including the program-counter discipline and the
    /// transition to `Halted` on any fatal condition.
    pub fn execute_instruction(&mut self, opcode: Opcode) -> (r: Result<(), Chip8Error>)
        requires
            old(self).wf(),
            opcode_wf(opcode),
        ensures
            final(self).wf(),
            execute_rel(*old(self), *final(self), opcode, r),
    {
        match opcode {
            Opcode::CLS => {
                self.display.clear();
                self.cpu.pc = (self.cpu.pc + 2) % 4096;
                Ok(())
            },
            Opcode::RET => {
                match self.cpu.pop_return() {
                    Ok(address) => {
                        self.cpu.pc = address;
                        Ok(())
                    },
                    Err(e) => {
                        self.status = Status::Halted(e);
                        Err(e)
                    },
                }
            },
            Opcode::JP(a) => {
                self.cpu.pc = a;
                Ok(())
            },
            Opcode::CALL(a) => {
                let ret = (self.cpu.pc + 2) % 4096;
                match self.cpu.push_return(ret) {
                    Ok(()) => {
                        self.cpu.pc = a;
                        Ok(())
                    },
                    Err(e) => {
                        self.status = Status::Halted(e);
                        Err(e)
                    },
                }
            },
            Opcode::SEx(x, kk) => {
                let step: u16 = if self.cpu.v[x as usize] == kk {
                    4
                } else {
                    2
                };
                self.cpu.pc = (self.cpu.pc + step) % 4096;
                Ok(())
            },
            Opcode::SNEx(x, kk) => {
                let step: u16 = if self.cpu.v[x as usize] != kk {
                    4
                } else {
                    2
                };
                self.cpu.pc = (self.cpu.pc + step) % 4096;
                Ok(())
            },
            Opcode::SExy(x, y) => {
                let step: u16 = if self.cpu.v[x as usize] == self.cpu.v[y as usize] {
                    4
                } else {
                    2
                };
                self.cpu.pc = (self.cpu.pc + step) % 4096;
                Ok(())
            },
            Opcode::SNExy(x, y) => {
                let step: u16 = if self.cpu.v[x as usize] != self.cpu.v[y as usize] {
                    4
                } else {
                    2
                };
                self.cpu.pc = (self.cpu.pc + step) % 4096;
                Ok(())
            },
            Opcode::LDx(x, kk) => {
                self.cpu.v.set(x as usize, kk);
                self.cpu.pc = (self.cpu.pc + 2) % 4096;
                Ok(())
            },
            Opcode::ADDx(x, kk) => {
                let sum = self.cpu.v[x as usize] as u16 + kk as u16;
                self.cpu.v.set(x as usize, (sum % 256) as u8);
                self.cpu.pc = (self.cpu.pc + 2) % 4096;
                Ok(())
            },
            Opcode::LDxy(x, y) => {
                let vy = self.cpu.v[y as usize];
                self.cpu.v.set(x as usize, vy);
                self.cpu.pc = (self.cpu.pc + 2) % 4096;
                Ok(())
            },
            Opcode::ORxy(x, y) => {
                let vx = self.cpu.v[x as usize];
                let vy = self.cpu.v[y as usize];
                self.cpu.v.set(x as usize, vx | vy);
                self.cpu.pc = (self.cpu.pc + 2) % 4096;
                Ok(())
            },
            Opcode::ANDxy(x, y) => {
                let vx = self.cpu.v[x as usize];
                let vy = self.cpu.v[y as usize];
                self.cpu.v.set(x as usize, vx & vy);
                self.cpu.pc = (self.cpu.pc + 2) % 4096;
                Ok(())
            },
            Opcode::XORxy(x, y) => {
                let vx = self.cpu.v[x as usize];
                let vy = self.cpu.v[y as usize];
                self.cpu.v.set(x as usize, vx ^ vy);
                self.cpu.pc = (self.cpu.pc + 2) % 4096;
                Ok(())
            },
            Opcode::ADDxy(x, y) => {
                let vx = self.cpu.v[x as usize];
                let vy = self.cpu.v[y as usize];
                let sum = vx as u16 + vy as u16;
                let flag: u8 = if sum > 255 {
                    1
                } else {
                    0
                };
                self.cpu.v.set(x as usize, (sum % 256) as u8);
                self.cpu.v.set(15, flag);
                self.cpu.pc = (self.cpu.pc + 2) % 4096;
                Ok(())
            },
            Opcode::SUBxy(x, y) => {
                let vx = self.cpu.v[x as usize];
                let vy = self.cpu.v[y as usize];
                let flag: u8 = if vx >= vy {
                    1
                } else {
                    0
                };
                let diff: u8 = if vx >= vy {
                    vx - vy
                } else {
                    (vx as u16 + 256 - vy as u16) as u8
                };
                self.cpu.v.set(x as usize, diff);
                self.cpu.v.set(15, flag);
                self.cpu.pc = (self.cpu.pc + 2) % 4096;
                Ok(())
            },
            Opcode::SUBNxy(x, y) => {
                let vx = self.cpu.v[x as usize];
                let vy = self.cpu.v[y as usize];
                let flag: u8 = if vy >= vx {
                    1
                } else {
                    0
                };
                let diff: u8 = if vy >= vx {
                    vy - vx
                } else {
                    (vy as u16 + 256 - vx as u16) as u8
                };
                self.cpu.v.set(x as usize, diff);
                self.cpu.v.set(15, flag);
                self.cpu.pc = (self.cpu.pc + 2) % 4096;
                Ok(())
            },
            Opcode::SHRxy(x, _y) => {
                let vx = self.cpu.v[x as usize];
                self.cpu.v.set(x as usize, vx >> 1u8);
                self.cpu.v.set(15, vx & 1);
                self.cpu.pc = (self.cpu.pc + 2) % 4096;
                Ok(())
            },
            Opcode::SHLxy(x, _y) => {
                let vx = self.cpu.v[x as usize];
                self.cpu.v.set(x as usize, vx << 1u8);
                self.cpu.v.set(15, vx >> 7u8);
                self.cpu.pc = (self.cpu.pc + 2) % 4096;
                Ok(())
            },
            Opcode::LDI(a) => {
                self.cpu.i = a;
                self.cpu.pc = (self.cpu.pc + 2) % 4096;
                Ok(())
            },
            Opcode::JPV0(a) => {
                self.cpu.pc = (a + self.cpu.v[0] as u16) % 4096;
                Ok(())
            },
            Opcode::RNDx(x, kk) => {
                let wide = (self.rng as u32) * 25173 + 13849;
                let nr = (wide % 65536) as u16;
                self.rng = nr;
                let byte = (nr % 256) as u8;
                self.cpu.v.set(x as usize, byte & kk);
                self.cpu.pc = (self.cpu.pc + 2) % 4096;
                Ok(())
            },
            Opcode::DRWxy(x, y, n) => {
                let i0 = self.cpu.i;
                if i0 + n as u16 > 4096 {
                    self.status = Status::Halted(Chip8Error::OutOfBounds);
                    return Err(Chip8Error::OutOfBounds);
                }
                let mut sprite: Vec<u8> = Vec::new();
                let mut k: usize = 0;
                while k < n as usize
                    invariant
                        *self == *old(self),
                        self.wf(),
                        k <= n as usize,
                        i0 == self.cpu.i,
                        i0 + n <= 4096,
                        sprite@ == self.memory.data@.subrange(i0 as int, i0 as int + k),
                    decreases n as int - k,
                {
                    sprite.push(self.memory.data[i0 as usize + k]);
                    proof {
                        assert(sprite@ =~= self.memory.data@.subrange(i0 as int, i0 as int + k + 1));
                    }
                    k += 1;
                }
                let vx = self.cpu.v[x as usize];
                let vy = self.cpu.v[y as usize];
                let collision = self.display.render_sprite(vx as usize, vy as usize, sprite);
                let flag: u8 = if collision {
                    1
                } else {
                    0
                };
                self.cpu.v.set(15, flag);
                self.cpu.pc = (self.cpu.pc + 2) % 4096;
                Ok(())
            },
            Opcode::SKPx(x) => {
                let vx = self.cpu.v[x as usize];
                proof {
                    lemma_low_nibble(vx);
                }
                let k = (vx & 0xF) as u16;
                let step: u16 = if ((self.keys >> k) & 1) == 1 {
                    4
                } else {
                    2
                };
                self.cpu.pc = (self.cpu.pc + step) % 4096;
                Ok(())
            },
            Opcode::SKNPx(x) => {
                let vx = self.cpu.v[x as usize];
                proof {
                    lemma_low_nibble(vx);
                }
                let k = (vx & 0xF) as u16;
                let step: u16 = if ((self.keys >> k) & 1) != 1 {
                    4
                } else {
                    2
                };
                self.cpu.pc = (self.cpu.pc + step) % 4096;
                Ok(())
            },
            Opcode::LDxDT(x) => {
                let dt = self.cpu.dt;
                self.cpu.v.set(x as usize, dt);
                self.cpu.pc = (self.cpu.pc + 2) % 4096;
                Ok(())
            },
            Opcode::LDxK(x) => {
                match first_down_key(self.keys) {
                    Some(k) => {
                        self.cpu.v.set(x as usize, k as u8);
                        self.cpu.pc = (self.cpu.pc + 2) % 4096;
                        Ok(())
                    },
                    None => {
                        self.status = Status::AwaitingKey(x);
                        Ok(())
                    },
                }
            },
            Opcode::LDDTx(x) => {
                self.cpu.dt = self.cpu.v[x as usize];
                self.cpu.pc = (self.cpu.pc + 2) % 4096;
                Ok(())
            },
            Opcode::LDSTx(x) => {
                self.cpu.st = self.cpu.v[x as usize];
                self.cpu.pc = (self.cpu.pc + 2) % 4096;
                Ok(())
            },
            Opcode::ADDIx(x) => {
                let vx = self.cpu.v[x as usize];
                self.cpu.i = (self.cpu.i + vx as u16) % 4096;
                self.cpu.pc = (self.cpu.pc + 2) % 4096;
                Ok(())
            },
            Opcode::LDFx(x) => {
                let vx = self.cpu.v[x as usize];
                proof {
                    lemma_low_nibble(vx);
                }
                self.cpu.i = self.memory.font_start + ((vx & 0xF) as u16) * 5;
                self.cpu.pc = (self.cpu.pc + 2) % 4096;
                Ok(())
            },
            Opcode::LDBx(x) => {
                let i0 = self.cpu.i;
                if i0 + 3 > 4096 {
                    self.status = Status::Halted(Chip8Error::OutOfBounds);
                    return Err(Chip8Error::OutOfBounds);
                }
                let val = self.cpu.v[x as usize];
                self.memory.data.set(i0 as usize, val / 100);
                self.memory.data.set(i0 as usize + 1, (val / 10) % 10);
                self.memory.data.set(i0 as usize + 2, val % 10);
                self.cpu.pc = (self.cpu.pc + 2) % 4096;
                Ok(())
            },
            Opcode::LDIx(x) => {
                let i0 = self.cpu.i;
                if i0 + x as u16 + 1 > 4096 {
                    self.status = Status::Halted(Chip8Error::OutOfBounds);
                    return Err(Chip8Error::OutOfBounds);
                }
                let mut k: usize = 0;
                while k < x as usize + 1
                    invariant
                        old(self).wf(),
                        k <= x as usize + 1,
                        x < 16,
                        i0 == self.cpu.i,
                        i0 + x + 1 <= 4096,
                        self.cpu == old(self).cpu,
                        self.display == old(self).display,
                        self.keys == old(self).keys,
                        self.rng == old(self).rng,
                        self.status == old(self).status,
                        self.memory.rom_start == old(self).memory.rom_start,
                        self.memory.rom_end == old(self).memory.rom_end,
                        self.memory.font_start == old(self).memory.font_start,
                        self.memory.data@.len() == 4096,
                        forall|j: int|
                            0 <= j < k ==> self.memory.data@[i0 + j] == old(self).cpu.v@[j],
                        forall|a: int|
                            0 <= a < 4096 && !(i0 <= a < i0 + k) ==> self.memory.data@[a] == old(
                                self,
                            ).memory.data@[a],
                    decreases x as int + 1 - k,
                {
                    let b = self.cpu.v[k];
                    self.memory.data.set(i0 as usize + k, b);
                    k += 1;
                }
                proof {
                    assert(self.memory.data@ =~= spliced(
                        old(self).memory.data@,
                        i0 as int,
                        old(self).cpu.v@.subrange(0, x + 1),
                    ));
                }
                self.cpu.pc = (self.cpu.pc + 2) % 4096;
                Ok(())
            },
            Opcode::LDxI(x) => {
                let i0 = self.cpu.i;
                if i0 + x as u16 + 1 > 4096 {
                    self.status = Status::Halted(Chip8Error::OutOfBounds);
                    return Err(Chip8Error::OutOfBounds);
                }
                let mut k: usize = 0;
                while k < x as usize + 1
                    invariant
                        old(self).wf(),
                        k <= x as usize + 1,
                        x < 16,
                        i0 == self.cpu.i,
                        i0 + x + 1 <= 4096,
                        self.memory == old(self).memory,
                        self.display == old(self).display,
                        self.keys == old(self).keys,
                        self.rng == old(self).rng,
                        self.status == old(self).status,
                        self.cpu.i == old(self).cpu.i,
                        self.cpu.pc == old(self).cpu.pc,
                        self.cpu.dt == old(self).cpu.dt,
                        self.cpu.st == old(self).cpu.st,
                        self.cpu.stack == old(self).cpu.stack,
                        self.cpu.v@.len() == 16,
                        forall|j: int|
                            0 <= j < k ==> self.cpu.v@[j] == self.memory.data@[i0 + j],
                        forall|j: int|
                            k <= j < 16 ==> self.cpu.v@[j] == old(self).cpu.v@[j],
                    decreases x as int + 1 - k,
                {
                    let b = self.memory.data[i0 as usize + k];
                    self.cpu.v.set(k, b);
                    k += 1;
                }
                proof {
                    assert(self.cpu.v@ =~= spliced(
                        old(self).cpu.v@,
                        0,
                        old(self).memory.data@.subrange(i0 as int, i0 as int + x + 1),
                    ));
                }
                self.cpu.pc = (self.cpu.pc + 2) % 4096;
                Ok(())
            },
            Opcode::Unknown(w) => {
                self.status = Status::Halted(Chip8Error::UnknownInstruction(w));
                Err(Chip8Error::UnknownInstruction(w))
            },
        }
    }

    /// One fetch-decode-execute step, as `tick_rel` states. A halted machine
    /// only reports its fault; a machine awaiting a key resumes exactly when
    /// one is down.
    pub fn tick(&mut self) -> (r: Result<(), Chip8Error>)
        requires
            old(self).wf(),
        ensures
            final(self).wf(),
            tick_rel(*old(self), *final(self), r),
    {
        match self.status {
            Status::Halted(e) => Err(e),
            Status::AwaitingKey(x) => {
                match first_down_key(self.keys) {
                    Some(k) => {
                        self.cpu.v.set(x as usize, k as u8);
                        self.cpu.pc = (self.cpu.pc + 2) % 4096;
                        self.status = Status::Running;
                        Ok(())
                    },
                    None => Ok(()),
                }
            },
            Status::Running => {
                let pc = self.cpu.pc;
                if pc >= 4095 {
                    self.status = Status::Halted(Chip8Error::OutOfBounds);
                    return Err(Chip8Error::OutOfBounds);
                }
                let word = match self.memory.get_instruction_at(pc) {
                    Ok(w) => w,
                    Err(e) => {
                        proof {
                            assert(false);
                        }
                        return Err(e);
                    },
                };
                let op = Opcode::decode(word);
                self.execute_instruction(op)
            },
        }
    }
}

/// Which instructions redirect the program counter themselves.
pub open spec fn is_control_flow(op: Opcode) -> bool {
    ||| op is JP
    ||| op is JPV0
    ||| op is CALL
    ||| op is RET
    ||| op is SEx
    ||| op is SNEx
    ||| op is SExy
    ||| op is SNExy
    ||| op is SKPx
    ||| op is SKNPx
}

/// After every successfully executed instruction that is not control flow
/// and not the key wait, the program counter has advanced by exactly 2.
pub proof fn lemma_pc_discipline(s: Chip8, t: Chip8, op: Opcode, r: Result<(), Chip8Error>)
    requires
        execute_rel(s, t, op, r),
        r is Ok,
        !is_control_flow(op),
        !(op is LDxK),
        !(op is Unknown),
    ensures
        t.cpu.pc == wrap12(s.cpu.pc + 2),
{
}

/// A jump or call lands exactly on its target, and a return lands exactly on
/// the address most recently pushed, never two past it.
pub proof fn lemma_jump_targets(s: Chip8, t: Chip8, op: Opcode, r: Result<(), Chip8Error>)
    requires
        execute_rel(s, t, op, r),
        r is Ok,
    ensures
        op matches Opcode::JP(a) ==> t.cpu.pc == a,
        op matches Opcode::CALL(a) ==> t.cpu.pc == a,
        op is RET ==> t.cpu.pc == s.cpu.stack@.last(),
{
}

/// Executing an unrecognized word is never a silent no-op: it reports the
/// word and halts the machine.
pub proof fn lemma_unknown_halts(s: Chip8, t: Chip8, w: u16, r: Result<(), Chip8Error>)
    requires
        execute_rel(s, t, Opcode::Unknown(w), r),
    ensures
        r == Err::<(), Chip8Error>(Chip8Error::UnknownInstruction(w)),
        t.status == Status::Halted(Chip8Error::UnknownInstruction(w)),
{
}

/// The call stack never grows past its fixed depth, and the call that would
/// exceed it reports `StackOverflow` and halts the machine.
pub proof fn lemma_stack_discipline(s: Chip8, t: Chip8, op: Opcode, r: Result<(), Chip8Error>)
    requires
        s.wf(),
        execute_rel(s, t, op, r),
    ensures
        t.cpu.stack@.len() <= 16,
        (op matches Opcode::CALL(a) && s.cpu.stack@.len() == 16) ==> r == Err::<(), Chip8Error>(
            Chip8Error::StackOverflow,
        ) && t.status == Status::Halted(Chip8Error::StackOverflow),
{
}

/// An implementation of `Default` with the conventional layout: the program
/// loads at 0x200, the font table sits at 0x50.
impl Default for Chip8 {
    fn default() -> (r: Chip8)
        ensures
            r.wf(),
            r.cpu.pc == 0x200,
            r.memory.rom_start == 0x200,
            r.memory.font_start == 0x50,
            r.display.pixels@ == blank_grid(),
            r.keys == 0,
            r.rng == 1,
            r.status == Status::Running,
    {
        Chip8::new(0x200, 0x50)
    }
}

} // verus!
