//! The instruction set: sixteen mnemonics, each with a four-bit opcode and
//! an operand format, and the packing of operands into a word.

use crate::text::{eq_ignore_ascii_case, same_ignoring_case, to_ascii_upper};
use vstd::prelude::*;

verus! {

/// The number of instruction words in a program image.
pub const CAPACITY: usize = 32;

/// The instructions of the machine.
#[derive(Clone, Copy, Debug, PartialEq, Eq, Structural)]
pub enum Mnemonic {
    Nop,
    Add,
    Ldi,
    Sub,
    Inv,
    And,
    Or,
    Xor,
    Mov,
    Sr,
    Sl,
    In,
    Out,
    Jz,
    Jlt,
    J,
}

/// The operands that an instruction takes, and where they go in its word.
#[derive(Clone, Copy, Debug, PartialEq, Eq, Structural)]
pub enum Format {
    /// No operand.
    Bare,
    /// One register, in bits 11 to 8.
    Reg,
    /// Two registers, in bits 11 to 8 and 7 to 4.
    RegReg,
    /// A register in bits 11 to 8 and an eight-bit immediate in bits 7 to 0.
    RegImm,
    /// A register in bits 11 to 8 and an eight-bit immediate shifted left by
    /// four, so that its upper half lies over the register.
    RegImmShifted,
    /// A register in bits 11 to 8 and a twelve-bit address in bits 11 to 0,
    /// so that the address's upper third lies over the register.
    RegLabel,
    /// A twelve-bit address in bits 11 to 0.
    Label,
}

impl Mnemonic {
    /// The opcode: the upper four bits of the instruction's word.
    pub open spec fn spec_opcode(self) -> u16 {
        match self {
            Mnemonic::Nop => 0x0u16,
            Mnemonic::Add => 0x1u16,
            Mnemonic::Ldi => 0x2u16,
            Mnemonic::Sub => 0x3u16,
            Mnemonic::Inv => 0x4u16,
            Mnemonic::And => 0x5u16,
            Mnemonic::Or => 0x6u16,
            Mnemonic::Xor => 0x7u16,
            Mnemonic::Mov => 0x8u16,
            Mnemonic::Sr => 0x9u16,
            Mnemonic::Sl => 0xAu16,
            Mnemonic::In => 0xBu16,
            Mnemonic::Out => 0xCu16,
            Mnemonic::Jz => 0xDu16,
            Mnemonic::Jlt => 0xEu16,
            Mnemonic::J => 0xFu16,
        }
    }

    /// The opcode: the upper four bits of the instruction's word.
    #[verifier::when_used_as_spec(spec_opcode)]
    pub fn opcode(self) -> (op: u16)
        ensures
            op == self.spec_opcode(),
    {
        match self {
            Mnemonic::Nop => 0x0,
            Mnemonic::Add => 0x1,
            Mnemonic::Ldi => 0x2,
            Mnemonic::Sub => 0x3,
            Mnemonic::Inv => 0x4,
            Mnemonic::And => 0x5,
            Mnemonic::Or => 0x6,
            Mnemonic::Xor => 0x7,
            Mnemonic::Mov => 0x8,
            Mnemonic::Sr => 0x9,
            Mnemonic::Sl => 0xA,
            Mnemonic::In => 0xB,
            Mnemonic::Out => 0xC,
            Mnemonic::Jz => 0xD,
            Mnemonic::Jlt => 0xE,
            Mnemonic::J => 0xF,
        }
    }

    /// The operand format of the instruction.
    pub open spec fn spec_format(self) -> Format {
        match self {
            Mnemonic::Nop => Format::Bare,
            Mnemonic::Inv => Format::Reg,
            Mnemonic::Add
            | Mnemonic::Sub
            | Mnemonic::And
            | Mnemonic::Or
            | Mnemonic::Xor
            | Mnemonic::Mov
            | Mnemonic::Sr
            | Mnemonic::Sl => Format::RegReg,
            Mnemonic::Ldi | Mnemonic::Out => Format::RegImm,
            Mnemonic::In => Format::RegImmShifted,
            Mnemonic::Jz | Mnemonic::Jlt => Format::RegLabel,
            Mnemonic::J => Format::Label,
        }
    }

    /// The operand format of the instruction.
    #[verifier::when_used_as_spec(spec_format)]
    pub fn format(self) -> (format: Format)
        ensures
            format == self.spec_format(),
    {
        match self {
            Mnemonic::Nop => Format::Bare,
            Mnemonic::Inv => Format::Reg,
            Mnemonic::Add
            | Mnemonic::Sub
            | Mnemonic::And
            | Mnemonic::Or
            | Mnemonic::Xor
            | Mnemonic::Mov
            | Mnemonic::Sr
            | Mnemonic::Sl => Format::RegReg,
            Mnemonic::Ldi | Mnemonic::Out => Format::RegImm,
            Mnemonic::In => Format::RegImmShifted,
            Mnemonic::Jz | Mnemonic::Jlt => Format::RegLabel,
            Mnemonic::J => Format::Label,
        }
    }

    /// The instruction's name as source text writes it, in upper case.
    pub open spec fn name(self) -> Seq<char> {
        match self {
            Mnemonic::Nop => "NOP"@,
            Mnemonic::Add => "ADD"@,
            Mnemonic::Ldi => "LDI"@,
            Mnemonic::Sub => "SUB"@,
            Mnemonic::Inv => "INV"@,
            Mnemonic::And => "AND"@,
            Mnemonic::Or => "OR"@,
            Mnemonic::Xor => "XOR"@,
            Mnemonic::Mov => "MOV"@,
            Mnemonic::Sr => "SR"@,
            Mnemonic::Sl => "SL"@,
            Mnemonic::In => "IN"@,
            Mnemonic::Out => "OUT"@,
            Mnemonic::Jz => "JZ"@,
            Mnemonic::Jlt => "JLT"@,
            Mnemonic::J => "J"@,
        }
    }
}

/// Whether a token spells an instruction's name, in any mix of cases.
pub open spec fn spells(token: Seq<char>, mnemonic: Mnemonic) -> bool {
    same_ignoring_case(token, mnemonic.name())
}

/// The instruction that a token names, if it names one.
pub open spec fn mnemonic_of(token: Seq<char>) -> Option<Mnemonic> {
    if spells(token, Mnemonic::Nop) {
        Some(Mnemonic::Nop)
    } else if spells(token, Mnemonic::Add) {
        Some(Mnemonic::Add)
    } else if spells(token, Mnemonic::Ldi) {
        Some(Mnemonic::Ldi)
    } else if spells(token, Mnemonic::Sub) {
        Some(Mnemonic::Sub)
    } else if spells(token, Mnemonic::Inv) {
        Some(Mnemonic::Inv)
    } else if spells(token, Mnemonic::And) {
        Some(Mnemonic::And)
    } else if spells(token, Mnemonic::Or) {
        Some(Mnemonic::Or)
    } else if spells(token, Mnemonic::Xor) {
        Some(Mnemonic::Xor)
    } else if spells(token, Mnemonic::Mov) {
        Some(Mnemonic::Mov)
    } else if spells(token, Mnemonic::Sr) {
        Some(Mnemonic::Sr)
    } else if spells(token, Mnemonic::Sl) {
        Some(Mnemonic::Sl)
    } else if spells(token, Mnemonic::In) {
        Some(Mnemonic::In)
    } else if spells(token, Mnemonic::Out) {
        Some(Mnemonic::Out)
    } else if spells(token, Mnemonic::Jz) {
        Some(Mnemonic::Jz)
    } else if spells(token, Mnemonic::Jlt) {
        Some(Mnemonic::Jlt)
    } else if spells(token, Mnemonic::J) {
        Some(Mnemonic::J)
    } else {
        None
    }
}

/// A token names an instruction exactly if it spells that instruction's
/// name: no token spells two names.
pub proof fn lemma_mnemonic_names(token: Seq<char>, mnemonic: Mnemonic)
    ensures
        mnemonic_of(token) == Some(mnemonic) <==> spells(token, mnemonic),
{
    reveal_strlit("NOP");
    reveal_strlit("ADD");
    reveal_strlit("LDI");
    reveal_strlit("SUB");
    reveal_strlit("INV");
    reveal_strlit("AND");
    reveal_strlit("OR");
    reveal_strlit("XOR");
    reveal_strlit("MOV");
    reveal_strlit("SR");
    reveal_strlit("SL");
    reveal_strlit("IN");
    reveal_strlit("OUT");
    reveal_strlit("JZ");
    reveal_strlit("JLT");
    reveal_strlit("J");
    assert forall|other: Mnemonic| spells(token, mnemonic) && spells(token, other) implies other
        == mnemonic by {
        let a = to_ascii_upper(mnemonic.name());
        let b = to_ascii_upper(other.name());
        assert(a == b);
        assert(a.len() == b.len());
        assert(a[0] == b[0]);
        if a.len() >= 2 {
            assert(a[1] == b[1]);
        }
        if a.len() >= 3 {
            assert(a[2] == b[2]);
        }
    }
}

/// Looks a mnemonic up by its name, without regard to case.
pub fn parse_mnemonic(token: &str) -> (result: Option<Mnemonic>)
    ensures
        result == mnemonic_of(token@),
{
    if eq_ignore_ascii_case(token, "NOP") {
        Some(Mnemonic::Nop)
    } else if eq_ignore_ascii_case(token, "ADD") {
        Some(Mnemonic::Add)
    } else if eq_ignore_ascii_case(token, "LDI") {
        Some(Mnemonic::Ldi)
    } else if eq_ignore_ascii_case(token, "SUB") {
        Some(Mnemonic::Sub)
    } else if eq_ignore_ascii_case(token, "INV") {
        Some(Mnemonic::Inv)
    } else if eq_ignore_ascii_case(token, "AND") {
        Some(Mnemonic::And)
    } else if eq_ignore_ascii_case(token, "OR") {
        Some(Mnemonic::Or)
    } else if eq_ignore_ascii_case(token, "XOR") {
        Some(Mnemonic::Xor)
    } else if eq_ignore_ascii_case(token, "MOV") {
        Some(Mnemonic::Mov)
    } else if eq_ignore_ascii_case(token, "SR") {
        Some(Mnemonic::Sr)
    } else if eq_ignore_ascii_case(token, "SL") {
        Some(Mnemonic::Sl)
    } else if eq_ignore_ascii_case(token, "IN") {
        Some(Mnemonic::In)
    } else if eq_ignore_ascii_case(token, "OUT") {
        Some(Mnemonic::Out)
    } else if eq_ignore_ascii_case(token, "JZ") {
        Some(Mnemonic::Jz)
    } else if eq_ignore_ascii_case(token, "JLT") {
        Some(Mnemonic::Jlt)
    } else if eq_ignore_ascii_case(token, "J") {
        Some(Mnemonic::J)
    } else {
        None
    }
}

/// The word of an instruction: the opcode in bits 15 to 12, the register
/// `a` in bits 11 to 8 where the format has one, and the second operand (a
/// register, an immediate or an address) where the format puts it. What the
/// format has no place for is left out of the word.
pub open spec fn spec_pack(format: Format, op: u16, a: u16, operand: u16) -> u16 {
    match format {
        Format::Bare => op << 12,
        Format::Reg => (op << 12) | (a << 8),
        Format::RegReg => (op << 12) | (a << 8) | (operand << 4),
        Format::RegImm => (op << 12) | (a << 8) | (operand & 0x00FF),
        Format::RegImmShifted => (op << 12) | (a << 8) | ((operand & 0x00FF) << 4),
        Format::RegLabel => (op << 12) | (a << 8) | (operand & 0x0FFF),
        Format::Label => (op << 12) | (operand & 0x0FFF),
    }
}

/// Packs an opcode and its operands into a word, as the format lays them
/// out.
#[verifier::when_used_as_spec(spec_pack)]
pub fn pack(format: Format, op: u16, a: u16, operand: u16) -> (word: u16)
    ensures
        word == spec_pack(format, op, a, operand),
{
    match format {
        Format::Bare => op << 12,
        Format::Reg => (op << 12) | (a << 8),
        Format::RegReg => (op << 12) | (a << 8) | (operand << 4),
        Format::RegImm => (op << 12) | (a << 8) | (operand & 0x00FF),
        Format::RegImmShifted => (op << 12) | (a << 8) | ((operand & 0x00FF) << 4),
        Format::RegLabel => (op << 12) | (a << 8) | (operand & 0x0FFF),
        Format::Label => (op << 12) | (operand & 0x0FFF),
    }
}

} // verus!
