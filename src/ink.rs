use vstd::prelude::*;

verus! {

/// The kind of a grid cell. `Invalid` is the placeholder for a code outside the table.
#[derive(Debug, Clone, Copy, PartialEq, Eq, Structural)]
pub enum Ink {
    Invalid,
    Empty,
    Write,
    Read,
    Cross,
    Trace,
    Buffer,
    And,
    Or,
    Xor,
    Not,
    Nand,
    Nor,
    Nxor,
    LatchOn,
    LatchOff,
    Clock,
    LED,
}

/// The ink that a 32-bit code names, if any. No code names `Invalid`.
pub open spec fn ink_of_code(c: u32) -> Option<Ink> {
    match c {
        0x0000_0000u32 => Some(Ink::Empty),
        0xFF3E_384Du32 => Some(Ink::Write),
        0xFF5D_472Eu32 => Some(Ink::Read),
        0xFF8E_7866u32 => Some(Ink::Cross),
        0xFF56_98A1u32 => Some(Ink::Trace),
        0xFF63_FF92u32 => Some(Ink::Buffer),
        0xFF63_C6FFu32 => Some(Ink::And),
        0xFFFF_F263u32 => Some(Ink::Or),
        0xFFFF_74AEu32 => Some(Ink::Xor),
        0xFF8A_62FFu32 => Some(Ink::Not),
        0xFF00_A2FFu32 => Some(Ink::Nand),
        0xFFFF_D930u32 => Some(Ink::Nor),
        0xFFFF_00A6u32 => Some(Ink::Nxor),
        0xFF9F_FF63u32 => Some(Ink::LatchOn),
        0xFF47_4D38u32 => Some(Ink::LatchOff),
        0xFF41_00FFu32 => Some(Ink::Clock),
        0xFFFF_FFFFu32 => Some(Ink::LED),
        _ => None,
    }
}

/// The code of an ink. `Invalid` has none of its own; it is given 0x69696969,
/// which no entry of the table uses.
pub open spec fn code_of_ink(i: Ink) -> u32 {
    match i {
        Ink::Invalid => 0x6969_6969u32,
        Ink::Empty => 0x0000_0000u32,
        Ink::Write => 0xFF3E_384Du32,
        Ink::Read => 0xFF5D_472Eu32,
        Ink::Cross => 0xFF8E_7866u32,
        Ink::Trace => 0xFF56_98A1u32,
        Ink::Buffer => 0xFF63_FF92u32,
        Ink::And => 0xFF63_C6FFu32,
        Ink::Or => 0xFFFF_F263u32,
        Ink::Xor => 0xFFFF_74AEu32,
        Ink::Not => 0xFF8A_62FFu32,
        Ink::Nand => 0xFF00_A2FFu32,
        Ink::Nor => 0xFFFF_D930u32,
        Ink::Nxor => 0xFFFF_00A6u32,
        Ink::LatchOn => 0xFF9F_FF63u32,
        Ink::LatchOff => 0xFF47_4D38u32,
        Ink::Clock => 0xFF41_00FFu32,
        Ink::LED => 0xFFFF_FFFFu32,
    }
}

/// The ink that a grid cell holding code `c` shows: `Invalid` for an unknown code.
pub open spec fn cell_ink(c: u32) -> Ink {
    match ink_of_code(c) {
        Some(i) => i,
        None => Ink::Invalid,
    }
}

impl Ink {
    /// Looks a code up in the table.
    pub fn from_code(c: u32) -> (r: Option<Ink>)
        ensures
            r == ink_of_code(c),
    {
        match c {
            0x0000_0000u32 => Some(Ink::Empty),
            0xFF3E_384Du32 => Some(Ink::Write),
            0xFF5D_472Eu32 => Some(Ink::Read),
            0xFF8E_7866u32 => Some(Ink::Cross),
            0xFF56_98A1u32 => Some(Ink::Trace),
            0xFF63_FF92u32 => Some(Ink::Buffer),
            0xFF63_C6FFu32 => Some(Ink::And),
            0xFFFF_F263u32 => Some(Ink::Or),
            0xFFFF_74AEu32 => Some(Ink::Xor),
            0xFF8A_62FFu32 => Some(Ink::Not),
            0xFF00_A2FFu32 => Some(Ink::Nand),
            0xFFFF_D930u32 => Some(Ink::Nor),
            0xFFFF_00A6u32 => Some(Ink::Nxor),
            0xFF9F_FF63u32 => Some(Ink::LatchOn),
            0xFF47_4D38u32 => Some(Ink::LatchOff),
            0xFF41_00FFu32 => Some(Ink::Clock),
            0xFFFF_FFFFu32 => Some(Ink::LED),
            _ => None,
        }
    }

    /// The code of this ink in the table.
    pub fn code_of(self) -> (r: u32)
        ensures
            r == code_of_ink(self),
    {
        match self {
            Ink::Invalid => 0x6969_6969u32,
            Ink::Empty => 0x0000_0000u32,
            Ink::Write => 0xFF3E_384Du32,
            Ink::Read => 0xFF5D_472Eu32,
            Ink::Cross => 0xFF8E_7866u32,
            Ink::Trace => 0xFF56_98A1u32,
            Ink::Buffer => 0xFF63_FF92u32,
            Ink::And => 0xFF63_C6FFu32,
            Ink::Or => 0xFFFF_F263u32,
            Ink::Xor => 0xFFFF_74AEu32,
            Ink::Not => 0xFF8A_62FFu32,
            Ink::Nand => 0xFF00_A2FFu32,
            Ink::Nor => 0xFFFF_D930u32,
            Ink::Nxor => 0xFFFF_00A6u32,
            Ink::LatchOn => 0xFF9F_FF63u32,
            Ink::LatchOff => 0xFF47_4D38u32,
            Ink::Clock => 0xFF41_00FFu32,
            Ink::LED => 0xFFFF_FFFFu32,
        }
    }

}

/// Every ink but `Invalid` is found again from its own code.
pub proof fn lemma_code_round_trip(i: Ink)
    requires
        i != Ink::Invalid,
    ensures
        ink_of_code(code_of_ink(i)) == Some(i),
{
}

/// A code that names an ink is that ink's code, and never names `Invalid`.
pub proof fn lemma_code_names_one_ink(c: u32)
    ensures
        ink_of_code(c) matches Some(i) ==> i != Ink::Invalid && code_of_ink(i) == c,
{
}

} // verus!
