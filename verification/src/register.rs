//! The sixteen general-purpose registers, named by nibble value.

use vstd::prelude::*;

verus! {

/// One of the sixteen 8-bit general-purpose registers. `VF` doubles as the
/// carry/borrow/collision flag written by arithmetic, shift and draw
/// operations.
#[derive(Debug, Clone, Copy, PartialEq, Eq, Structural)]
pub enum Reg {
    V0,
    V1,
    V2,
    V3,
    V4,
    V5,
    V6,
    V7,
    V8,
    V9,
    VA,
    VB,
    VC,
    VD,
    VE,
    VF,
}

/// The position of a register in the register file.
pub open spec fn reg_index(r: Reg) -> int {
    match r {
        Reg::V0 => 0,
        Reg::V1 => 1,
        Reg::V2 => 2,
        Reg::V3 => 3,
        Reg::V4 => 4,
        Reg::V5 => 5,
        Reg::V6 => 6,
        Reg::V7 => 7,
        Reg::V8 => 8,
        Reg::V9 => 9,
        Reg::VA => 10,
        Reg::VB => 11,
        Reg::VC => 12,
        Reg::VD => 13,
        Reg::VE => 14,
        Reg::VF => 15,
    }
}

/// The register named by a nibble value.
pub open spec fn spec_reg(x: u8) -> Reg {
    match x {
        0x00 => Reg::V0,
        0x01 => Reg::V1,
        0x02 => Reg::V2,
        0x03 => Reg::V3,
        0x04 => Reg::V4,
        0x05 => Reg::V5,
        0x06 => Reg::V6,
        0x07 => Reg::V7,
        0x08 => Reg::V8,
        0x09 => Reg::V9,
        0x0A => Reg::VA,
        0x0B => Reg::VB,
        0x0C => Reg::VC,
        0x0D => Reg::VD,
        0x0E => Reg::VE,
        _ => Reg::VF,
    }
}

/// The register named by a nibble value 0x0 to 0xF.
pub fn reg(x: u8) -> (r: Reg)
    requires
        x < 16,
    ensures
        r == spec_reg(x),
        reg_index(r) == x as int,
{
    match x {
        0x00 => Reg::V0,
        0x01 => Reg::V1,
        0x02 => Reg::V2,
        0x03 => Reg::V3,
        0x04 => Reg::V4,
        0x05 => Reg::V5,
        0x06 => Reg::V6,
        0x07 => Reg::V7,
        0x08 => Reg::V8,
        0x09 => Reg::V9,
        0x0A => Reg::VA,
        0x0B => Reg::VB,
        0x0C => Reg::VC,
        0x0D => Reg::VD,
        0x0E => Reg::VE,
        _ => Reg::VF,
    }
}

impl Reg {
    /// The position of this register in the register file, below 16.
    pub fn index(&self) -> (i: usize)
        ensures
            i == reg_index(*self),
            i < 16,
    {
        match *self {
            Reg::V0 => 0,
            Reg::V1 => 1,
            Reg::V2 => 2,
            Reg::V3 => 3,
            Reg::V4 => 4,
            Reg::V5 => 5,
            Reg::V6 => 6,
            Reg::V7 => 7,
            Reg::V8 => 8,
            Reg::V9 => 9,
            Reg::VA => 10,
            Reg::VB => 11,
            Reg::VC => 12,
            Reg::VD => 13,
            Reg::VE => 14,
            Reg::VF => 15,
        }
    }

    /// The register's conventional name, `V0` through `VF`.
    pub fn text(&self) -> (s: &'static str)
        ensures
            s@ == spec_reg_text(*self),
    {
        match *self {
            Reg::V0 => "V0",
            Reg::V1 => "V1",
            Reg::V2 => "V2",
            Reg::V3 => "V3",
            Reg::V4 => "V4",
            Reg::V5 => "V5",
            Reg::V6 => "V6",
            Reg::V7 => "V7",
            Reg::V8 => "V8",
            Reg::V9 => "V9",
            Reg::VA => "VA",
            Reg::VB => "VB",
            Reg::VC => "VC",
            Reg::VD => "VD",
            Reg::VE => "VE",
            Reg::VF => "VF",
        }
    }
}

/// The text of a register's conventional name.
pub open spec fn spec_reg_text(r: Reg) -> Seq<char> {
    match r {
        Reg::V0 => "V0"@,
        Reg::V1 => "V1"@,
        Reg::V2 => "V2"@,
        Reg::V3 => "V3"@,
        Reg::V4 => "V4"@,
        Reg::V5 => "V5"@,
        Reg::V6 => "V6"@,
        Reg::V7 => "V7"@,
        Reg::V8 => "V8"@,
        Reg::V9 => "V9"@,
        Reg::VA => "VA"@,
        Reg::VB => "VB"@,
        Reg::VC => "VC"@,
        Reg::VD => "VD"@,
        Reg::VE => "VE"@,
        Reg::VF => "VF"@,
    }
}

} // verus!
