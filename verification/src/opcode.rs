//! The instruction set: one tagged variant per instruction form, and the
//! total decoder from 16-bit words.

use vstd::prelude::*;

verus! {

/// A decoded instruction. Operand fields hold register indices (a nibble),
/// immediate bytes, 12-bit addresses, or a sprite height nibble, as each
/// form requires.
#[allow(non_camel_case_types)]
#[derive(Clone, Copy, Debug, PartialEq, Eq, Structural)]
pub enum Opcode {
    /// 00E0: clear the screen.
    CLS,
    /// 00EE: return from a subroutine.
    RET,
    /// 1nnn: jump to address nnn.
    JP(u16),
    /// 2nnn: call the subroutine at nnn.
    CALL(u16),
    /// 3xkk: skip the next instruction if Vx equals kk.
    SEx(u8, u8),
    /// 4xkk: skip the next instruction if Vx differs from kk.
    SNEx(u8, u8),
    /// 5xy0: skip the next instruction if Vx equals Vy.
    SExy(u8, u8),
    /// 6xkk: load kk into Vx.
    LDx(u8, u8),
    /// 7xkk: add kk to Vx, wrapping, without touching the flag.
    ADDx(u8, u8),
    /// 8xy0: copy Vy into Vx.
    LDxy(u8, u8),
    /// 8xy1: bitwise or of Vx and Vy into Vx.
    ORxy(u8, u8),
    /// 8xy2: bitwise and of Vx and Vy into Vx.
    ANDxy(u8, u8),
    /// 8xy3: bitwise exclusive or of Vx and Vy into Vx.
    XORxy(u8, u8),
    /// 8xy4: add Vy to Vx with the carry into VF.
    ADDxy(u8, u8),
    /// 8xy5: subtract Vy from Vx; VF is 1 exactly when no borrow occurred.
    SUBxy(u8, u8),
    /// 8xy6: shift Vx right one bit; VF takes the bit shifted out.
    SHRxy(u8, u8),
    /// 8xy7: set Vx to Vy minus Vx; VF is 1 exactly when no borrow occurred.
    SUBNxy(u8, u8),
    /// 8xyE: shift Vx left one bit; VF takes the bit shifted out.
    SHLxy(u8, u8),
    /// 9xy0: skip the next instruction if Vx differs from Vy.
    SNExy(u8, u8),
    /// Annn: load nnn into the index register.
    LDI(u16),
    /// Bnnn: jump to nnn plus V0.
    JPV0(u16),
    /// Cxkk: load a fresh pseudo-random byte masked with kk into Vx.
    RNDx(u8, u8),
    /// Dxyn: draw the n-byte sprite at the index register at (Vx, Vy); VF
    /// reports a collision.
    DRWxy(u8, u8, u8),
    /// Ex9E: skip the next instruction if the key named by Vx is down.
    SKPx(u8),
    /// ExA1: skip the next instruction if the key named by Vx is not down.
    SKNPx(u8),
    /// Fx07: read the delay timer into Vx.
    LDxDT(u8),
    /// Fx0A: wait for a key press and put the key into Vx.
    LDxK(u8),
    /// Fx15: set the delay timer from Vx.
    LDDTx(u8),
    /// Fx18: set the sound timer from Vx.
    LDSTx(u8),
    /// Fx1E: add Vx to the index register, wrapping within the address space.
    ADDIx(u8),
    /// Fx29: point the index register at the font glyph for the low nibble of
    /// Vx.
    LDFx(u8),
    /// Fx33: store the three decimal digits of Vx at the index register.
    LDBx(u8),
    /// Fx55: dump V0 through Vx to memory at the index register.
    LDIx(u8),
    /// Fx65: load V0 through Vx from memory at the index register.
    LDxI(u8),
    /// Any word that matches no recognized encoding; executing it is fatal.
    Unknown(u16),
}

/// The primary family: the top nibble of the word.
pub open spec fn op_fam(w: u16) -> u16 {
    (w >> 12u16) & 0xF
}

/// The x register operand: the second nibble.
pub open spec fn op_x(w: u16) -> u8 {
    ((w >> 8u16) & 0xF) as u8
}

/// The y register operand: the third nibble.
pub open spec fn op_y(w: u16) -> u8 {
    ((w >> 4u16) & 0xF) as u8
}

/// The low nibble.
pub open spec fn op_n(w: u16) -> u8 {
    (w & 0xF) as u8
}

/// The low byte.
pub open spec fn op_kk(w: u16) -> u8 {
    (w & 0xFF) as u8
}

/// The low twelve bits: an address.
pub open spec fn op_addr(w: u16) -> u16 {
    w & 0xFFF
}

/// What any 16-bit word decodes to. Decoding is total: a word that matches
/// no recognized encoding yields `Unknown`, carrying the word.
pub open spec fn spec_decode(w: u16) -> Opcode {
    let fam = op_fam(w);
    if fam == 0 {
        if w == 0x00E0 {
            Opcode::CLS
        } else if w == 0x00EE {
            Opcode::RET
        } else {
            Opcode::Unknown(w)
        }
    } else if fam == 1 {
        Opcode::JP(op_addr(w))
    } else if fam == 2 {
        Opcode::CALL(op_addr(w))
    } else if fam == 3 {
        Opcode::SEx(op_x(w), op_kk(w))
    } else if fam == 4 {
        Opcode::SNEx(op_x(w), op_kk(w))
    } else if fam == 5 {
        if op_n(w) == 0 {
            Opcode::SExy(op_x(w), op_y(w))
        } else {
            Opcode::Unknown(w)
        }
    } else if fam == 6 {
        Opcode::LDx(op_x(w), op_kk(w))
    } else if fam == 7 {
        Opcode::ADDx(op_x(w), op_kk(w))
    } else if fam == 8 {
        let n = op_n(w);
        if n == 0 {
            Opcode::LDxy(op_x(w), op_y(w))
        } else if n == 1 {
            Opcode::ORxy(op_x(w), op_y(w))
        } else if n == 2 {
            Opcode::ANDxy(op_x(w), op_y(w))
        } else if n == 3 {
            Opcode::XORxy(op_x(w), op_y(w))
        } else if n == 4 {
            Opcode::ADDxy(op_x(w), op_y(w))
        } else if n == 5 {
            Opcode::SUBxy(op_x(w), op_y(w))
        } else if n == 6 {
            Opcode::SHRxy(op_x(w), op_y(w))
        } else if n == 7 {
            Opcode::SUBNxy(op_x(w), op_y(w))
        } else if n == 0xE {
            Opcode::SHLxy(op_x(w), op_y(w))
        } else {
            Opcode::Unknown(w)
        }
    } else if fam == 9 {
        if op_n(w) == 0 {
            Opcode::SNExy(op_x(w), op_y(w))
        } else {
            Opcode::Unknown(w)
        }
    } else if fam == 0xA {
        Opcode::LDI(op_addr(w))
    } else if fam == 0xB {
        Opcode::JPV0(op_addr(w))
    } else if fam == 0xC {
        Opcode::RNDx(op_x(w), op_kk(w))
    } else if fam == 0xD {
        Opcode::DRWxy(op_x(w), op_y(w), op_n(w))
    } else if fam == 0xE {
        let kk = op_kk(w);
        if kk == 0x9E {
            Opcode::SKPx(op_x(w))
        } else if kk == 0xA1 {
            Opcode::SKNPx(op_x(w))
        } else {
            Opcode::Unknown(w)
        }
    } else {
        let kk = op_kk(w);
        if kk == 0x07 {
            Opcode::LDxDT(op_x(w))
        } else if kk == 0x0A {
            Opcode::LDxK(op_x(w))
        } else if kk == 0x15 {
            Opcode::LDDTx(op_x(w))
        } else if kk == 0x18 {
            Opcode::LDSTx(op_x(w))
        } else if kk == 0x1E {
            Opcode::ADDIx(op_x(w))
        } else if kk == 0x29 {
            Opcode::LDFx(op_x(w))
        } else if kk == 0x33 {
            Opcode::LDBx(op_x(w))
        } else if kk == 0x55 {
            Opcode::LDIx(op_x(w))
        } else if kk == 0x65 {
            Opcode::LDxI(op_x(w))
        } else {
            Opcode::Unknown(w)
        }
    }
}

/// Every operand field lies in the range its position allows: register
/// indices and sprite heights are nibbles, addresses are twelve bits.
pub open spec fn opcode_wf(op: Opcode) -> bool {
    match op {
        Opcode::CLS => true,
        Opcode::RET => true,
        Opcode::JP(a) => a < 4096,
        Opcode::CALL(a) => a < 4096,
        Opcode::SEx(x, _) => x < 16,
        Opcode::SNEx(x, _) => x < 16,
        Opcode::SExy(x, y) => x < 16 && y < 16,
        Opcode::LDx(x, _) => x < 16,
        Opcode::ADDx(x, _) => x < 16,
        Opcode::LDxy(x, y) => x < 16 && y < 16,
        Opcode::ORxy(x, y) => x < 16 && y < 16,
        Opcode::ANDxy(x, y) => x < 16 && y < 16,
        Opcode::XORxy(x, y) => x < 16 && y < 16,
        Opcode::ADDxy(x, y) => x < 16 && y < 16,
        Opcode::SUBxy(x, y) => x < 16 && y < 16,
        Opcode::SHRxy(x, y) => x < 16 && y < 16,
        Opcode::SUBNxy(x, y) => x < 16 && y < 16,
        Opcode::SHLxy(x, y) => x < 16 && y < 16,
        Opcode::SNExy(x, y) => x < 16 && y < 16,
        Opcode::LDI(a) => a < 4096,
        Opcode::JPV0(a) => a < 4096,
        Opcode::RNDx(x, _) => x < 16,
        Opcode::DRWxy(x, y, n) => x < 16 && y < 16 && n < 16,
        Opcode::SKPx(x) => x < 16,
        Opcode::SKNPx(x) => x < 16,
        Opcode::LDxDT(x) => x < 16,
        Opcode::LDxK(x) => x < 16,
        Opcode::LDDTx(x) => x < 16,
        Opcode::LDSTx(x) => x < 16,
        Opcode::ADDIx(x) => x < 16,
        Opcode::LDFx(x) => x < 16,
        Opcode::LDBx(x) => x < 16,
        Opcode::LDIx(x) => x < 16,
        Opcode::LDxI(x) => x < 16,
        Opcode::Unknown(_) => true,
    }
}

/// The operand fields a word can carry always lie in range.
proof fn lemma_fields_in_range(w: u16)
    by (bit_vector)
    ensures
        (w >> 12u16) & 0xF < 16,
        (w >> 8u16) & 0xF < 16,
        (w >> 4u16) & 0xF < 16,
        w & 0xF < 16,
        w & 0xFF < 256,
        w & 0xFFF < 4096,
{
}

/// A decoded word is always well formed.
pub proof fn lemma_decode_wf(w: u16)
    ensures
        opcode_wf(spec_decode(w)),
{
    lemma_fields_in_range(w);
}

/// Decoding is a pure function of the word alone: it is defined for every
/// 16-bit word, and equal words always decode to the same variant with the
/// same operand fields.
pub proof fn lemma_decode_deterministic(w1: u16, w2: u16)
    requires
        w1 == w2,
    ensures
        spec_decode(w1) == spec_decode(w2),
{
}

impl Opcode {
    /// Decodes a 16-bit instruction word.
    pub fn decode(w: u16) -> (r: Opcode)
        ensures
            r == spec_decode(w),
            opcode_wf(r),
    {
        proof {
            lemma_fields_in_range(w);
        }
        let fam = (w >> 12u16) & 0xF;
        let x = ((w >> 8u16) & 0xF) as u8;
        let y = ((w >> 4u16) & 0xF) as u8;
        let n = (w & 0xF) as u8;
        let kk = (w & 0xFF) as u8;
        let addr = w & 0xFFF;
        match fam {
            0 => {
                if w == 0x00E0 {
                    Opcode::CLS
                } else if w == 0x00EE {
                    Opcode::RET
                } else {
                    Opcode::Unknown(w)
                }
            },
            1 => Opcode::JP(addr),
            2 => Opcode::CALL(addr),
            3 => Opcode::SEx(x, kk),
            4 => Opcode::SNEx(x, kk),
            5 => {
                if n == 0 {
                    Opcode::SExy(x, y)
                } else {
                    Opcode::Unknown(w)
                }
            },
            6 => Opcode::LDx(x, kk),
            7 => Opcode::ADDx(x, kk),
            8 => match n {
                0 => Opcode::LDxy(x, y),
                1 => Opcode::ORxy(x, y),
                2 => Opcode::ANDxy(x, y),
                3 => Opcode::XORxy(x, y),
                4 => Opcode::ADDxy(x, y),
                5 => Opcode::SUBxy(x, y),
                6 => Opcode::SHRxy(x, y),
                7 => Opcode::SUBNxy(x, y),
                0xE => Opcode::SHLxy(x, y),
                _ => Opcode::Unknown(w),
            },
            9 => {
                if n == 0 {
                    Opcode::SNExy(x, y)
                } else {
                    Opcode::Unknown(w)
                }
            },
            0xA => Opcode::LDI(addr),
            0xB => Opcode::JPV0(addr),
            0xC => Opcode::RNDx(x, kk),
            0xD => Opcode::DRWxy(x, y, n),
            0xE => {
                if kk == 0x9E {
                    Opcode::SKPx(x)
                } else if kk == 0xA1 {
                    Opcode::SKNPx(x)
                } else {
                    Opcode::Unknown(w)
                }
            },
            _ => {
                if kk == 0x07 {
                    Opcode::LDxDT(x)
                } else if kk == 0x0A {
                    Opcode::LDxK(x)
                } else if kk == 0x15 {
                    Opcode::LDDTx(x)
                } else if kk == 0x18 {
                    Opcode::LDSTx(x)
                } else if kk == 0x1E {
                    Opcode::ADDIx(x)
                } else if kk == 0x29 {
                    Opcode::LDFx(x)
                } else if kk == 0x33 {
                    Opcode::LDBx(x)
                } else if kk == 0x55 {
                    Opcode::LDIx(x)
                } else if kk == 0x65 {
                    Opcode::LDxI(x)
                } else {
                    Opcode::Unknown(w)
                }
            },
        }
    }
}

/// Conversion from a raw instruction word, as `word.into()` or
/// `Opcode::from(word)`.
impl From<u16> for Opcode {
    fn from(w: u16) -> (r: Opcode) {
        Opcode::decode(w)
    }
}

impl vstd::std_specs::convert::FromSpecImpl<u16> for Opcode {
    open spec fn obeys_from_spec() -> bool {
        true
    }

    open spec fn from_spec(w: u16) -> Opcode {
        spec_decode(w)
    }
}

} // verus!
