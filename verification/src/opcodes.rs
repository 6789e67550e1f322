//! Decoding 16-bit instruction words into tagged operations.

use vstd::prelude::*;

use crate::errors::Chip8Error;
use crate::register::{reg, spec_reg, Reg};

verus! {

/// A decoded instruction: one of the 34 operations of the instruction set.
#[derive(Debug, Clone, Copy, PartialEq, Eq, Structural)]
pub enum Opcode {
    ClearScreen,
    Return,
    SysAddr(u16),
    JumpAddr(u16),
    CallAddr(u16),
    SkipEqByte(Reg, u8),
    SkipNEqByte(Reg, u8),
    SkipEqReg(Reg, Reg),
    LoadByte(Reg, u8),
    AddByte(Reg, u8),
    LoadReg(Reg, Reg),
    BitOr(Reg, Reg),
    BitAnd(Reg, Reg),
    BitXor(Reg, Reg),
    MathAdd(Reg, Reg),
    MathSub(Reg, Reg),
    ShiftRight(Reg, Reg),
    MathSubN(Reg, Reg),
    ShiftLeft(Reg, Reg),
    SkipNEqReg(Reg, Reg),
    MemLoad(u16),
    JumpAddV0(u16),
    Rand(Reg, u8),
    Draw(Reg, Reg, u8),
    KeyEqSkip(Reg),
    KeyNEqSkip(Reg),
    DelayGet(Reg),
    KeyGet(Reg),
    DelaySet(Reg),
    SoundSet(Reg),
    MemAdd(Reg),
    MemSprite(Reg),
    BCD(Reg),
    RegDump(Reg),
    RegLoad(Reg),
}

/// The topmost nibble of a halfword.
pub open spec fn nib3(x: u16) -> u8 {
    (((x >> 12) & 0x0F) as u8)
}

/// The second nibble of a halfword, counted from the top.
pub open spec fn nib2(x: u16) -> u8 {
    (((x >> 8) & 0x0F) as u8)
}

/// The third nibble of a halfword, counted from the top.
pub open spec fn nib1(x: u16) -> u8 {
    (((x >> 4) & 0x0F) as u8)
}

/// The lowest nibble of a halfword.
pub open spec fn nib0(x: u16) -> u8 {
    ((x & 0x0F) as u8)
}

/// Splits a halfword into its four nibbles, topmost first.
pub fn halfword2nibbles(x: u16) -> (r: (u8, u8, u8, u8))
    ensures
        r == (nib3(x), nib2(x), nib1(x), nib0(x)),
        r.0 < 16 && r.1 < 16 && r.2 < 16 && r.3 < 16,
{
    let a = ((x >> 0xC) & 0x0F) as u8;
    let b = ((x >> 0x8) & 0x0F) as u8;
    let c = ((x >> 0x4) & 0x0F) as u8;
    let d = ((x) & 0x0F) as u8;
    assert(a < 16 && b < 16 && c < 16 && d < 16) by (bit_vector)
        requires
            a == ((x >> 12) & 0x0F) as u8 && b == ((x >> 8) & 0x0F) as u8 && c == ((x >> 4)
                & 0x0F) as u8 && d == (x & 0x0F) as u8,
    ;
    (a, b, c, d)
}

/// The byte whose high nibble is the low nibble of `a` and whose low nibble
/// is the low nibble of `b`.
pub fn nibble2byte(a: u8, b: u8) -> (r: u8)
    ensures
        r == 16 * (a as int % 16) + (b as int % 16),
{
    let r = (a << 4) | b & 0x0F;
    assert(r == 16 * (a as int % 16) + (b as int % 16)) by (bit_vector)
        requires
            r == (a << 4) | b & 0x0F,
    ;
    r
}

/// The 12-bit address assembled from three nibbles, topmost first. The first
/// argument is taken whole; decoding only ever passes it a nibble.
pub fn nibbles2addr(a: u8, b: u8, c: u8) -> (r: u16)
    ensures
        r == 256 * (a as int) + 16 * (b as int % 16) + (c as int % 16),
        a < 16 ==> r < 0x1000,
{
    let mut x = a as u16;
    x = x << 8;
    let byte = nibble2byte(b, c);
    let r = x | byte as u16;
    assert(r == 256 * (a as int) + byte as int && (a < 16 ==> r < 0x1000)) by (bit_vector)
        requires
            x == (a as u16) << 8 && r == x | byte as u16 && byte < 256,
    ;
    r
}

/// Splitting a byte into its two nibbles and joining them again restores
/// the byte, for every byte: the split/join pair is a bijection.
pub proof fn lemma_byte_split_join(b: u8)
    ensures
        16 * ((b >> 4u8) as int % 16) + ((b & 0x0F) as int % 16) == b as int,
{
    assert(16 * ((b >> 4u8) as int % 16) + ((b & 0x0F) as int % 16) == b as int) by (bit_vector);
}

/// Assembling an address from three nibbles and splitting it again restores
/// the nibbles, for every valid nibble triple.
pub proof fn lemma_addr_split_join(a: u8, b: u8, c: u8)
    requires
        a < 16,
        b < 16,
        c < 16,
    ensures
        nib2((256 * (a as int) + 16 * (b as int) + (c as int)) as u16) == a,
        nib1((256 * (a as int) + 16 * (b as int) + (c as int)) as u16) == b,
        nib0((256 * (a as int) + 16 * (b as int) + (c as int)) as u16) == c,
{
    let r = (256 * (a as int) + 16 * (b as int) + (c as int)) as u16;
    assert(nib2(r) == a && nib1(r) == b && nib0(r) == c) by (bit_vector)
        requires
            a < 16 && b < 16 && c < 16 && r == (256 * (a as int) + 16 * (b as int) + (
            c as int)) as u16,
    ;
}

/// Whether an operation's operands respect the machine's limits: decoded
/// addresses are twelve bits wide and a sprite height is one nibble. Every
/// operation the decoder returns satisfies this.
pub open spec fn opcode_wf(op: Opcode) -> bool {
    match op {
        Opcode::SysAddr(a) => a < 0x1000,
        Opcode::JumpAddr(a) => a < 0x1000,
        Opcode::CallAddr(a) => a < 0x1000,
        Opcode::MemLoad(a) => a < 0x1000,
        Opcode::JumpAddV0(a) => a < 0x1000,
        Opcode::Draw(_, _, n) => n < 16,
        _ => true,
    }
}

/// The operation a halfword decodes to, or the decode error carrying the raw
/// word. Dispatch is on the topmost nibble first, then on trailing nibbles.
pub open spec fn spec_decode(instr: u16) -> Result<Opcode, Chip8Error> {
    let a = nib3(instr);
    let b = nib2(instr);
    let c = nib1(instr);
    let d = nib0(instr);
    let byte = (16 * (c as int % 16) + (d as int % 16)) as u8;
    let addr = (256 * (b as int) + 16 * (c as int % 16) + (d as int % 16)) as u16;
    if a == 0x0 && b == 0 && c == 0xE && d == 0 {
        Ok(Opcode::ClearScreen)
    } else if a == 0x0 && b == 0 && c == 0xE && d == 0xE {
        Ok(Opcode::Return)
    } else if a == 0x0 {
        Ok(Opcode::SysAddr(addr))
    } else if a == 0x1 {
        Ok(Opcode::JumpAddr(addr))
    } else if a == 0x2 {
        Ok(Opcode::CallAddr(addr))
    } else if a == 0x3 {
        Ok(Opcode::SkipEqByte(spec_reg(b), byte))
    } else if a == 0x4 {
        Ok(Opcode::SkipNEqByte(spec_reg(b), byte))
    } else if a == 0x5 && d == 0 {
        Ok(Opcode::SkipEqReg(spec_reg(b), spec_reg(c)))
    } else if a == 0x6 {
        Ok(Opcode::LoadByte(spec_reg(b), byte))
    } else if a == 0x7 {
        Ok(Opcode::AddByte(spec_reg(b), byte))
    } else if a == 0x8 && d == 0 {
        Ok(Opcode::LoadReg(spec_reg(b), spec_reg(c)))
    } else if a == 0x8 && d == 1 {
        Ok(Opcode::BitOr(spec_reg(b), spec_reg(c)))
    } else if a == 0x8 && d == 2 {
        Ok(Opcode::BitAnd(spec_reg(b), spec_reg(c)))
    } else if a == 0x8 && d == 3 {
        Ok(Opcode::BitXor(spec_reg(b), spec_reg(c)))
    } else if a == 0x8 && d == 4 {
        Ok(Opcode::MathAdd(spec_reg(b), spec_reg(c)))
    } else if a == 0x8 && d == 5 {
        Ok(Opcode::MathSub(spec_reg(b), spec_reg(c)))
    } else if a == 0x8 && d == 6 {
        Ok(Opcode::ShiftRight(spec_reg(b), spec_reg(c)))
    } else if a == 0x8 && d == 7 {
        Ok(Opcode::MathSubN(spec_reg(b), spec_reg(c)))
    } else if a == 0x8 && d == 0xE {
        Ok(Opcode::ShiftLeft(spec_reg(b), spec_reg(c)))
    } else if a == 0x9 && d == 0 {
        Ok(Opcode::SkipNEqReg(spec_reg(b), spec_reg(c)))
    } else if a == 0xA {
        Ok(Opcode::MemLoad(addr))
    } else if a == 0xB {
        Ok(Opcode::JumpAddV0(addr))
    } else if a == 0xC {
        Ok(Opcode::Rand(spec_reg(b), byte))
    } else if a == 0xD {
        Ok(Opcode::Draw(spec_reg(b), spec_reg(c), d))
    } else if a == 0xE && c == 0x9 && d == 0xE {
        Ok(Opcode::KeyEqSkip(spec_reg(b)))
    } else if a == 0xE && c == 0xA && d == 0x1 {
        Ok(Opcode::KeyNEqSkip(spec_reg(b)))
    } else if a == 0xF && c == 0x0 && d == 0x7 {
        Ok(Opcode::DelayGet(spec_reg(b)))
    } else if a == 0xF && c == 0x0 && d == 0xA {
        Ok(Opcode::KeyGet(spec_reg(b)))
    } else if a == 0xF && c == 0x1 && d == 0x5 {
        Ok(Opcode::DelaySet(spec_reg(b)))
    } else if a == 0xF && c == 0x1 && d == 0x8 {
        Ok(Opcode::SoundSet(spec_reg(b)))
    } else if a == 0xF && c == 0x1 && d == 0xE {
        Ok(Opcode::MemAdd(spec_reg(b)))
    } else if a == 0xF && c == 0x2 && d == 0x9 {
        Ok(Opcode::MemSprite(spec_reg(b)))
    } else if a == 0xF && c == 0x3 && d == 0x3 {
        Ok(Opcode::BCD(spec_reg(b)))
    } else if a == 0xF && c == 0x5 && d == 0x5 {
        Ok(Opcode::RegDump(spec_reg(b)))
    } else if a == 0xF && c == 0x6 && d == 0x5 {
        Ok(Opcode::RegLoad(spec_reg(b)))
    } else {
        Err(Chip8Error::UnrecognizedOpcode(instr))
    }
}

/// Decodes a halfword into its operation. Total over all 65536 words: every
/// word either decodes to exactly one operation or fails with
/// `UnrecognizedOpcode` carrying the word itself.
pub fn disassemble(instr: u16) -> (r: Result<Opcode, Chip8Error>)
    ensures
        r == spec_decode(instr),
        r matches Ok(op) ==> opcode_wf(op),
{
    let (a, b, c, d) = halfword2nibbles(instr);
    match (a, b, c, d) {
        (0x0, 0, 0xE, 0) => Ok(Opcode::ClearScreen),
        (0x0, 0, 0xE, 0xE) => Ok(Opcode::Return),
        (0x0, n1, n2, n3) => Ok(Opcode::SysAddr(nibbles2addr(n1, n2, n3))),
        (0x1, n1, n2, n3) => Ok(Opcode::JumpAddr(nibbles2addr(n1, n2, n3))),
        (0x2, n1, n2, n3) => Ok(Opcode::CallAddr(nibbles2addr(n1, n2, n3))),
        (0x3, x, n1, n2) => Ok(Opcode::SkipEqByte(reg(x), nibble2byte(n1, n2))),
        (0x4, x, n1, n2) => Ok(Opcode::SkipNEqByte(reg(x), nibble2byte(n1, n2))),
        (0x5, x, y, 0) => Ok(Opcode::SkipEqReg(reg(x), reg(y))),
        (0x6, x, n1, n2) => Ok(Opcode::LoadByte(reg(x), nibble2byte(n1, n2))),
        (0x7, x, n1, n2) => Ok(Opcode::AddByte(reg(x), nibble2byte(n1, n2))),
        (0x8, x, y, 0) => Ok(Opcode::LoadReg(reg(x), reg(y))),
        (0x8, x, y, 1) => Ok(Opcode::BitOr(reg(x), reg(y))),
        (0x8, x, y, 2) => Ok(Opcode::BitAnd(reg(x), reg(y))),
        (0x8, x, y, 3) => Ok(Opcode::BitXor(reg(x), reg(y))),
        (0x8, x, y, 4) => Ok(Opcode::MathAdd(reg(x), reg(y))),
        (0x8, x, y, 5) => Ok(Opcode::MathSub(reg(x), reg(y))),
        (0x8, x, y, 6) => Ok(Opcode::ShiftRight(reg(x), reg(y))),
        (0x8, x, y, 7) => Ok(Opcode::MathSubN(reg(x), reg(y))),
        (0x8, x, y, 0xE) => Ok(Opcode::ShiftLeft(reg(x), reg(y))),
        (0x9, x, y, 0) => Ok(Opcode::SkipNEqReg(reg(x), reg(y))),
        (0xA, n1, n2, n3) => Ok(Opcode::MemLoad(nibbles2addr(n1, n2, n3))),
        (0xB, n1, n2, n3) => Ok(Opcode::JumpAddV0(nibbles2addr(n1, n2, n3))),
        (0xC, x, n1, n2) => Ok(Opcode::Rand(reg(x), nibble2byte(n1, n2))),
        (0xD, x, y, n1) => Ok(Opcode::Draw(reg(x), reg(y), n1)),
        (0xE, x, 0x9, 0xE) => Ok(Opcode::KeyEqSkip(reg(x))),
        (0xE, x, 0xA, 0x1) => Ok(Opcode::KeyNEqSkip(reg(x))),
        (0xF, x, 0x0, 0x7) => Ok(Opcode::DelayGet(reg(x))),
        (0xF, x, 0x0, 0xA) => Ok(Opcode::KeyGet(reg(x))),
        (0xF, x, 0x1, 0x5) => Ok(Opcode::DelaySet(reg(x))),
        (0xF, x, 0x1, 0x8) => Ok(Opcode::SoundSet(reg(x))),
        (0xF, x, 0x1, 0xE) => Ok(Opcode::MemAdd(reg(x))),
        (0xF, x, 0x2, 0x9) => Ok(Opcode::MemSprite(reg(x))),
        (0xF, x, 0x3, 0x3) => Ok(Opcode::BCD(reg(x))),
        (0xF, x, 0x5, 0x5) => Ok(Opcode::RegDump(reg(x))),
        (0xF, x, 0x6, 0x5) => Ok(Opcode::RegLoad(reg(x))),
        _ => Err(Chip8Error::UnrecognizedOpcode(instr)),
    }
}

/// The mnemonic token the disassembler writes for an operation. Operations
/// that share a dispatch-table family share the token (`LOAD`, `MATH.ADD`,
/// `SKIP.EQ`, `SKIP.NEQ`); only their operands differ in print.
pub open spec fn spec_mnemonic(op: Opcode) -> Seq<char> {
    match op {
        Opcode::ClearScreen => "CLS"@,
        Opcode::Return => "RETURN"@,
        Opcode::SysAddr(_) => "SYSADDR"@,
        Opcode::JumpAddr(_) => "JUMP"@,
        Opcode::CallAddr(_) => "CALL"@,
        Opcode::SkipEqByte(_, _) => "SKIP.EQ"@,
        Opcode::SkipNEqByte(_, _) => "SKIP.NEQ"@,
        Opcode::SkipEqReg(_, _) => "SKIP.EQ"@,
        Opcode::LoadByte(_, _) => "LOAD"@,
        Opcode::AddByte(_, _) => "MATH.ADD"@,
        Opcode::LoadReg(_, _) => "LOAD"@,
        Opcode::BitOr(_, _) => "BIT.OR"@,
        Opcode::BitAnd(_, _) => "BIT.AND"@,
        Opcode::BitXor(_, _) => "BIT.XOR"@,
        Opcode::MathAdd(_, _) => "MATH.ADD"@,
        Opcode::MathSub(_, _) => "MATH.SUB"@,
        Opcode::ShiftRight(_, _) => "BIT.SHR"@,
        Opcode::MathSubN(_, _) => "MATH.SUBN"@,
        Opcode::ShiftLeft(_, _) => "BIT.SHL"@,
        Opcode::SkipNEqReg(_, _) => "SKIP.NEQ"@,
        Opcode::MemLoad(_) => "LOAD"@,
        Opcode::JumpAddV0(_) => "LOAD"@,
        Opcode::Rand(_, _) => "RAND"@,
        Opcode::Draw(_, _, _) => "DRAW"@,
        Opcode::KeyEqSkip(_) => "SKIP.KEY"@,
        Opcode::KeyNEqSkip(_) => "SKIP.NKEY"@,
        Opcode::DelayGet(_) => "DELAY.GET"@,
        Opcode::KeyGet(_) => "KEY.GET"@,
        Opcode::DelaySet(_) => "DELAY.SET"@,
        Opcode::SoundSet(_) => "SOUND.SET"@,
        Opcode::MemAdd(_) => "MATH.ADD"@,
        Opcode::MemSprite(_) => "SPRITE"@,
        Opcode::BCD(_) => "BCD"@,
        Opcode::RegDump(_) => "REG.DUMP"@,
        Opcode::RegLoad(_) => "REG.LOAD"@,
    }
}

/// The representative operation of a mnemonic token: what re-parsing the
/// token recovers. Tokens shared by a family recover the family's first
/// member, with zeroed operands.
pub open spec fn spec_parse_mnemonic(m: Seq<char>) -> Option<Opcode> {
    if m == "CLS"@ {
        Some(Opcode::ClearScreen)
    } else if m == "RETURN"@ {
        Some(Opcode::Return)
    } else if m == "SYSADDR"@ {
        Some(Opcode::SysAddr(0))
    } else if m == "JUMP"@ {
        Some(Opcode::JumpAddr(0))
    } else if m == "CALL"@ {
        Some(Opcode::CallAddr(0))
    } else if m == "SKIP.EQ"@ {
        Some(Opcode::SkipEqByte(Reg::V0, 0))
    } else if m == "SKIP.NEQ"@ {
        Some(Opcode::SkipNEqByte(Reg::V0, 0))
    } else if m == "LOAD"@ {
        Some(Opcode::LoadByte(Reg::V0, 0))
    } else if m == "MATH.ADD"@ {
        Some(Opcode::AddByte(Reg::V0, 0))
    } else if m == "BIT.OR"@ {
        Some(Opcode::BitOr(Reg::V0, Reg::V0))
    } else if m == "BIT.AND"@ {
        Some(Opcode::BitAnd(Reg::V0, Reg::V0))
    } else if m == "BIT.XOR"@ {
        Some(Opcode::BitXor(Reg::V0, Reg::V0))
    } else if m == "MATH.SUB"@ {
        Some(Opcode::MathSub(Reg::V0, Reg::V0))
    } else if m == "BIT.SHR"@ {
        Some(Opcode::ShiftRight(Reg::V0, Reg::V0))
    } else if m == "MATH.SUBN"@ {
        Some(Opcode::MathSubN(Reg::V0, Reg::V0))
    } else if m == "BIT.SHL"@ {
        Some(Opcode::ShiftLeft(Reg::V0, Reg::V0))
    } else if m == "RAND"@ {
        Some(Opcode::Rand(Reg::V0, 0))
    } else if m == "DRAW"@ {
        Some(Opcode::Draw(Reg::V0, Reg::V0, 0))
    } else if m == "SKIP.KEY"@ {
        Some(Opcode::KeyEqSkip(Reg::V0))
    } else if m == "SKIP.NKEY"@ {
        Some(Opcode::KeyNEqSkip(Reg::V0))
    } else if m == "DELAY.GET"@ {
        Some(Opcode::DelayGet(Reg::V0))
    } else if m == "KEY.GET"@ {
        Some(Opcode::KeyGet(Reg::V0))
    } else if m == "DELAY.SET"@ {
        Some(Opcode::DelaySet(Reg::V0))
    } else if m == "SOUND.SET"@ {
        Some(Opcode::SoundSet(Reg::V0))
    } else if m == "SPRITE"@ {
        Some(Opcode::MemSprite(Reg::V0))
    } else if m == "BCD"@ {
        Some(Opcode::BCD(Reg::V0))
    } else if m == "REG.DUMP"@ {
        Some(Opcode::RegDump(Reg::V0))
    } else if m == "REG.LOAD"@ {
        Some(Opcode::RegLoad(Reg::V0))
    } else {
        None
    }
}

impl Opcode {
    /// The mnemonic token the disassembler writes for this operation.
    pub fn mnemonic(&self) -> (s: &'static str)
        ensures
            s@ == spec_mnemonic(*self),
    {
        match *self {
            Opcode::ClearScreen => "CLS",
            Opcode::Return => "RETURN",
            Opcode::SysAddr(_) => "SYSADDR",
            Opcode::JumpAddr(_) => "JUMP",
            Opcode::CallAddr(_) => "CALL",
            Opcode::SkipEqByte(_, _) => "SKIP.EQ",
            Opcode::SkipNEqByte(_, _) => "SKIP.NEQ",
            Opcode::SkipEqReg(_, _) => "SKIP.EQ",
            Opcode::LoadByte(_, _) => "LOAD",
            Opcode::AddByte(_, _) => "MATH.ADD",
            Opcode::LoadReg(_, _) => "LOAD",
            Opcode::BitOr(_, _) => "BIT.OR",
            Opcode::BitAnd(_, _) => "BIT.AND",
            Opcode::BitXor(_, _) => "BIT.XOR",
            Opcode::MathAdd(_, _) => "MATH.ADD",
            Opcode::MathSub(_, _) => "MATH.SUB",
            Opcode::ShiftRight(_, _) => "BIT.SHR",
            Opcode::MathSubN(_, _) => "MATH.SUBN",
            Opcode::ShiftLeft(_, _) => "BIT.SHL",
            Opcode::SkipNEqReg(_, _) => "SKIP.NEQ",
            Opcode::MemLoad(_) => "LOAD",
            Opcode::JumpAddV0(_) => "LOAD",
            Opcode::Rand(_, _) => "RAND",
            Opcode::Draw(_, _, _) => "DRAW",
            Opcode::KeyEqSkip(_) => "SKIP.KEY",
            Opcode::KeyNEqSkip(_) => "SKIP.NKEY",
            Opcode::DelayGet(_) => "DELAY.GET",
            Opcode::KeyGet(_) => "KEY.GET",
            Opcode::DelaySet(_) => "DELAY.SET",
            Opcode::SoundSet(_) => "SOUND.SET",
            Opcode::MemAdd(_) => "MATH.ADD",
            Opcode::MemSprite(_) => "SPRITE",
            Opcode::BCD(_) => "BCD",
            Opcode::RegDump(_) => "REG.DUMP",
            Opcode::RegLoad(_) => "REG.LOAD",
        }
    }
}

/// Whether two string slices hold the same characters.
fn str_eq(a: &str, b: &str) -> (r: bool)
    ensures
        r == (a@ == b@),
{
    let sa = String::from_str(a);
    let sb = String::from_str(b);
    sa == sb
}

/// Re-parses a mnemonic token into the representative operation of its
/// dispatch-table family, or nothing for an unknown token.
pub fn parse_mnemonic(s: &str) -> (r: Option<Opcode>)
    ensures
        r == spec_parse_mnemonic(s@),
{
    if str_eq(s, "CLS") {
        Some(Opcode::ClearScreen)
    } else if str_eq(s, "RETURN") {
        Some(Opcode::Return)
    } else if str_eq(s, "SYSADDR") {
        Some(Opcode::SysAddr(0))
    } else if str_eq(s, "JUMP") {
        Some(Opcode::JumpAddr(0))
    } else if str_eq(s, "CALL") {
        Some(Opcode::CallAddr(0))
    } else if str_eq(s, "SKIP.EQ") {
        Some(Opcode::SkipEqByte(Reg::V0, 0))
    } else if str_eq(s, "SKIP.NEQ") {
        Some(Opcode::SkipNEqByte(Reg::V0, 0))
    } else if str_eq(s, "LOAD") {
        Some(Opcode::LoadByte(Reg::V0, 0))
    } else if str_eq(s, "MATH.ADD") {
        Some(Opcode::AddByte(Reg::V0, 0))
    } else if str_eq(s, "BIT.OR") {
        Some(Opcode::BitOr(Reg::V0, Reg::V0))
    } else if str_eq(s, "BIT.AND") {
        Some(Opcode::BitAnd(Reg::V0, Reg::V0))
    } else if str_eq(s, "BIT.XOR") {
        Some(Opcode::BitXor(Reg::V0, Reg::V0))
    } else if str_eq(s, "MATH.SUB") {
        Some(Opcode::MathSub(Reg::V0, Reg::V0))
    } else if str_eq(s, "BIT.SHR") {
        Some(Opcode::ShiftRight(Reg::V0, Reg::V0))
    } else if str_eq(s, "MATH.SUBN") {
        Some(Opcode::MathSubN(Reg::V0, Reg::V0))
    } else if str_eq(s, "BIT.SHL") {
        Some(Opcode::ShiftLeft(Reg::V0, Reg::V0))
    } else if str_eq(s, "RAND") {
        Some(Opcode::Rand(Reg::V0, 0))
    } else if str_eq(s, "DRAW") {
        Some(Opcode::Draw(Reg::V0, Reg::V0, 0))
    } else if str_eq(s, "SKIP.KEY") {
        Some(Opcode::KeyEqSkip(Reg::V0))
    } else if str_eq(s, "SKIP.NKEY") {
        Some(Opcode::KeyNEqSkip(Reg::V0))
    } else if str_eq(s, "DELAY.GET") {
        Some(Opcode::DelayGet(Reg::V0))
    } else if str_eq(s, "KEY.GET") {
        Some(Opcode::KeyGet(Reg::V0))
    } else if str_eq(s, "DELAY.SET") {
        Some(Opcode::DelaySet(Reg::V0))
    } else if str_eq(s, "SOUND.SET") {
        Some(Opcode::SoundSet(Reg::V0))
    } else if str_eq(s, "SPRITE") {
        Some(Opcode::MemSprite(Reg::V0))
    } else if str_eq(s, "BCD") {
        Some(Opcode::BCD(Reg::V0))
    } else if str_eq(s, "REG.DUMP") {
        Some(Opcode::RegDump(Reg::V0))
    } else if str_eq(s, "REG.LOAD") {
        Some(Opcode::RegLoad(Reg::V0))
    } else {
        None
    }
}

/// Rendering an operation's mnemonic and re-parsing it recovers the same
/// dispatch-table tag: the parse succeeds, and what it recovers carries the
/// very mnemonic that was rendered. For the families that print one shared
/// token, the representative member is recovered; every other operation is
/// recovered exactly.
pub proof fn lemma_mnemonic_round_trip(op: Opcode)
    ensures
        spec_parse_mnemonic(spec_mnemonic(op)) is Some,
        spec_mnemonic(spec_parse_mnemonic(spec_mnemonic(op))->0) == spec_mnemonic(op),
{
    reveal_strlit("CLS");
    reveal_strlit("RETURN");
    reveal_strlit("SYSADDR");
    reveal_strlit("JUMP");
    reveal_strlit("CALL");
    reveal_strlit("SKIP.EQ");
    reveal_strlit("SKIP.NEQ");
    reveal_strlit("LOAD");
    reveal_strlit("MATH.ADD");
    reveal_strlit("BIT.OR");
    reveal_strlit("BIT.AND");
    reveal_strlit("BIT.XOR");
    reveal_strlit("MATH.SUB");
    reveal_strlit("BIT.SHR");
    reveal_strlit("MATH.SUBN");
    reveal_strlit("BIT.SHL");
    reveal_strlit("RAND");
    reveal_strlit("DRAW");
    reveal_strlit("SKIP.KEY");
    reveal_strlit("SKIP.NKEY");
    reveal_strlit("DELAY.GET");
    reveal_strlit("KEY.GET");
    reveal_strlit("DELAY.SET");
    reveal_strlit("SOUND.SET");
    reveal_strlit("SPRITE");
    reveal_strlit("BCD");
    reveal_strlit("REG.DUMP");
    reveal_strlit("REG.LOAD");
}

/// Decoding is total: every halfword either decodes to an operation or fails
/// with `UnrecognizedOpcode` carrying that very word; and being a function,
/// it gives the same answer for the same word every time.
pub proof fn lemma_decode_total(instr: u16)
    ensures
        spec_decode(instr) is Ok || spec_decode(instr) == Result::<
            Opcode,
            Chip8Error,
        >::Err(Chip8Error::UnrecognizedOpcode(instr)),
{
}

} // verus!
