//! The protocol encoding types of the chip: control-register banks, the
//! 5-bit register address space, the (bank, address) pair naming one
//! register, and the fixed 8-bit instruction patterns.

use vstd::prelude::*;

verus! {

/// One of the 4 memory banks for control registers.  The low 5 address bits
/// of a control register are relative to the currently selected bank.
#[derive(Debug, Clone, Copy, PartialEq, Eq, Structural)]
pub enum Bank {
    Bank0,
    Bank1,
    Bank2,
    Bank3,
}

impl Bank {
    /// The 2-bit bank-select value written into ECON1.
    pub open spec fn spec_value(self) -> u8 {
        match self {
            Bank::Bank0 => 0,
            Bank::Bank1 => 1,
            Bank::Bank2 => 2,
            Bank::Bank3 => 3,
        }
    }

    /// The 2-bit bank-select value written into ECON1.
    pub fn value(&self) -> (r: u8)
        ensures
            r == self.spec_value(),
    {
        match self {
            Bank::Bank0 => 0,
            Bank::Bank1 => 1,
            Bank::Bank2 => 2,
            Bank::Bank3 => 3,
        }
    }
}

impl Default for Bank {
    /// After reset the chip selects bank 0.
    fn default() -> (r: Self)
        ensures
            r == Bank::Bank0,
    {
        Bank::Bank0
    }
}

/// One of the 32 valid addresses of the 5-bit control-register address
/// space, each named by its value in two-digit hexadecimal.  The enumeration
/// is closed and ordered: every value 0..=31 has exactly one variant, and
/// each variant but the last has a well-defined successor.
#[allow(non_camel_case_types)]
#[derive(Debug, Clone, Copy, PartialEq, Eq, Structural, PartialOrd, Ord, Hash)]
pub enum RegisterAddress {
    r00,
    r01,
    r02,
    r03,
    r04,
    r05,
    r06,
    r07,
    r08,
    r09,
    r0A,
    r0B,
    r0C,
    r0D,
    r0E,
    r0F,
    r10,
    r11,
    r12,
    r13,
    r14,
    r15,
    r16,
    r17,
    r18,
    r19,
    r1A,
    r1B,
    r1C,
    r1D,
    r1E,
    r1F,
}

impl RegisterAddress {
    /// The numeric value of the address, in 0..=31.
    pub open spec fn spec_value(self) -> u8 {
        match self {
            RegisterAddress::r00 => 0x00,
            RegisterAddress::r01 => 0x01,
            RegisterAddress::r02 => 0x02,
            RegisterAddress::r03 => 0x03,
            RegisterAddress::r04 => 0x04,
            RegisterAddress::r05 => 0x05,
            RegisterAddress::r06 => 0x06,
            RegisterAddress::r07 => 0x07,
            RegisterAddress::r08 => 0x08,
            RegisterAddress::r09 => 0x09,
            RegisterAddress::r0A => 0x0A,
            RegisterAddress::r0B => 0x0B,
            RegisterAddress::r0C => 0x0C,
            RegisterAddress::r0D => 0x0D,
            RegisterAddress::r0E => 0x0E,
            RegisterAddress::r0F => 0x0F,
            RegisterAddress::r10 => 0x10,
            RegisterAddress::r11 => 0x11,
            RegisterAddress::r12 => 0x12,
            RegisterAddress::r13 => 0x13,
            RegisterAddress::r14 => 0x14,
            RegisterAddress::r15 => 0x15,
            RegisterAddress::r16 => 0x16,
            RegisterAddress::r17 => 0x17,
            RegisterAddress::r18 => 0x18,
            RegisterAddress::r19 => 0x19,
            RegisterAddress::r1A => 0x1A,
            RegisterAddress::r1B => 0x1B,
            RegisterAddress::r1C => 0x1C,
            RegisterAddress::r1D => 0x1D,
            RegisterAddress::r1E => 0x1E,
            RegisterAddress::r1F => 0x1F,
        }
    }

    /// The numeric value of the address, in 0..=31.
    pub fn value(&self) -> (r: u8)
        ensures
            r == self.spec_value(),
            r < 32,
    {
        match self {
            RegisterAddress::r00 => 0x00,
            RegisterAddress::r01 => 0x01,
            RegisterAddress::r02 => 0x02,
            RegisterAddress::r03 => 0x03,
            RegisterAddress::r04 => 0x04,
            RegisterAddress::r05 => 0x05,
            RegisterAddress::r06 => 0x06,
            RegisterAddress::r07 => 0x07,
            RegisterAddress::r08 => 0x08,
            RegisterAddress::r09 => 0x09,
            RegisterAddress::r0A => 0x0A,
            RegisterAddress::r0B => 0x0B,
            RegisterAddress::r0C => 0x0C,
            RegisterAddress::r0D => 0x0D,
            RegisterAddress::r0E => 0x0E,
            RegisterAddress::r0F => 0x0F,
            RegisterAddress::r10 => 0x10,
            RegisterAddress::r11 => 0x11,
            RegisterAddress::r12 => 0x12,
            RegisterAddress::r13 => 0x13,
            RegisterAddress::r14 => 0x14,
            RegisterAddress::r15 => 0x15,
            RegisterAddress::r16 => 0x16,
            RegisterAddress::r17 => 0x17,
            RegisterAddress::r18 => 0x18,
            RegisterAddress::r19 => 0x19,
            RegisterAddress::r1A => 0x1A,
            RegisterAddress::r1B => 0x1B,
            RegisterAddress::r1C => 0x1C,
            RegisterAddress::r1D => 0x1D,
            RegisterAddress::r1E => 0x1E,
            RegisterAddress::r1F => 0x1F,
        }
    }

    /// The address of the given value, or `None` above 31, where the 5-bit
    /// address space ends.
    pub fn from_value(v: u8) -> (r: Option<RegisterAddress>)
        ensures
            v < 32 ==> (r matches Some(a) && a.spec_value() == v),
            v >= 32 ==> r is None,
    {
        match v {
            0x00 => Some(RegisterAddress::r00),
            0x01 => Some(RegisterAddress::r01),
            0x02 => Some(RegisterAddress::r02),
            0x03 => Some(RegisterAddress::r03),
            0x04 => Some(RegisterAddress::r04),
            0x05 => Some(RegisterAddress::r05),
            0x06 => Some(RegisterAddress::r06),
            0x07 => Some(RegisterAddress::r07),
            0x08 => Some(RegisterAddress::r08),
            0x09 => Some(RegisterAddress::r09),
            0x0A => Some(RegisterAddress::r0A),
            0x0B => Some(RegisterAddress::r0B),
            0x0C => Some(RegisterAddress::r0C),
            0x0D => Some(RegisterAddress::r0D),
            0x0E => Some(RegisterAddress::r0E),
            0x0F => Some(RegisterAddress::r0F),
            0x10 => Some(RegisterAddress::r10),
            0x11 => Some(RegisterAddress::r11),
            0x12 => Some(RegisterAddress::r12),
            0x13 => Some(RegisterAddress::r13),
            0x14 => Some(RegisterAddress::r14),
            0x15 => Some(RegisterAddress::r15),
            0x16 => Some(RegisterAddress::r16),
            0x17 => Some(RegisterAddress::r17),
            0x18 => Some(RegisterAddress::r18),
            0x19 => Some(RegisterAddress::r19),
            0x1A => Some(RegisterAddress::r1A),
            0x1B => Some(RegisterAddress::r1B),
            0x1C => Some(RegisterAddress::r1C),
            0x1D => Some(RegisterAddress::r1D),
            0x1E => Some(RegisterAddress::r1E),
            0x1F => Some(RegisterAddress::r1F),
            _ => None,
        }
    }

    /// The enumeration is closed and its values distinct: two addresses
    /// with the same value are the same variant.
    pub proof fn lemma_values_distinct(a: RegisterAddress, b: RegisterAddress)
        ensures
            a.spec_value() == b.spec_value() ==> a == b,
    {
    }

    /// The generated name of this address: `r` followed by its value in
    /// two-digit upper-case hexadecimal.
    pub fn name(&self) -> (r: String)
        ensures
            r@ == crate::address_space::spec_variant_name(self.spec_value() as nat),
    {
        crate::address_space::variant_name(self.value() as u128)
    }

    /// The successor address, used to reach the high byte of a word-sized
    /// register stored at address + 1.  The last address has no successor.
    pub fn next(&self) -> (r: RegisterAddress)
        requires
            self.spec_value() < 31,
        ensures
            r.spec_value() == self.spec_value() + 1,
    {
        match self {
            RegisterAddress::r00 => RegisterAddress::r01,
            RegisterAddress::r01 => RegisterAddress::r02,
            RegisterAddress::r02 => RegisterAddress::r03,
            RegisterAddress::r03 => RegisterAddress::r04,
            RegisterAddress::r04 => RegisterAddress::r05,
            RegisterAddress::r05 => RegisterAddress::r06,
            RegisterAddress::r06 => RegisterAddress::r07,
            RegisterAddress::r07 => RegisterAddress::r08,
            RegisterAddress::r08 => RegisterAddress::r09,
            RegisterAddress::r09 => RegisterAddress::r0A,
            RegisterAddress::r0A => RegisterAddress::r0B,
            RegisterAddress::r0B => RegisterAddress::r0C,
            RegisterAddress::r0C => RegisterAddress::r0D,
            RegisterAddress::r0D => RegisterAddress::r0E,
            RegisterAddress::r0E => RegisterAddress::r0F,
            RegisterAddress::r0F => RegisterAddress::r10,
            RegisterAddress::r10 => RegisterAddress::r11,
            RegisterAddress::r11 => RegisterAddress::r12,
            RegisterAddress::r12 => RegisterAddress::r13,
            RegisterAddress::r13 => RegisterAddress::r14,
            RegisterAddress::r14 => RegisterAddress::r15,
            RegisterAddress::r15 => RegisterAddress::r16,
            RegisterAddress::r16 => RegisterAddress::r17,
            RegisterAddress::r17 => RegisterAddress::r18,
            RegisterAddress::r18 => RegisterAddress::r19,
            RegisterAddress::r19 => RegisterAddress::r1A,
            RegisterAddress::r1A => RegisterAddress::r1B,
            RegisterAddress::r1B => RegisterAddress::r1C,
            RegisterAddress::r1C => RegisterAddress::r1D,
            RegisterAddress::r1D => RegisterAddress::r1E,
            RegisterAddress::r1E => RegisterAddress::r1F,
            RegisterAddress::r1F => {
                proof {
                    assert(false);
                }
                RegisterAddress::r1F
            },
        }
    }
}

/// One byte-wide hardware control register, identified by its bank and its
/// bank-relative 5-bit address.
#[derive(Debug, Clone, Copy)]
pub struct ControlRegister {
    pub bank: Bank,
    pub address: RegisterAddress,
}

impl ControlRegister {
    /// The register at address + 1 in the same bank, used only for
    /// word-sized registers whose high byte immediately follows the low
    /// byte.
    pub fn next(&self) -> (r: ControlRegister)
        requires
            self.address.spec_value() < 31,
        ensures
            r.bank == self.bank,
            r.address.spec_value() == self.address.spec_value() + 1,
    {
        ControlRegister { address: self.address.next(), bank: self.bank }
    }
}

/// Operation code for interfacing with the chip: the fixed 8-bit instruction
/// patterns of its SPI instruction set.  The register instructions carry the
/// 5-bit register address in their low bits; the buffer-memory and reset
/// instructions are fixed full bytes.
#[derive(Debug, Clone, Copy)]
pub(crate) enum OpCode {
    /// Read control register: top 3 bits `000`, low 5 bits the address.
    Rcr,
    /// Read buffer memory (fixed byte, kept for completeness).
    Rbm,
    /// Write control register: top 3 bits `010`, low 5 bits the address.
    Wcr,
    /// Write buffer memory (fixed byte, kept for completeness).
    Wbm,
    /// Bit field set: top 3 bits `100`, low 5 bits the address.
    Bfs,
    /// Bit field clear: top 3 bits `101`, low 5 bits the address.
    Bfc,
    /// System reset command (fixed byte, kept for completeness).
    Src,
}

impl OpCode {
    /// The instruction pattern, with a zero address field where one applies.
    pub(crate) open spec fn spec_code(self) -> u8 {
        match self {
            OpCode::Rcr => 0x00,
            OpCode::Rbm => 0x3A,
            OpCode::Wcr => 0x40,
            OpCode::Wbm => 0x7A,
            OpCode::Bfs => 0x80,
            OpCode::Bfc => 0xA0,
            OpCode::Src => 0xFF,
        }
    }

    /// The instruction pattern, with a zero address field where one applies.
    pub(crate) fn code(&self) -> (r: u8)
        ensures
            r == self.spec_code(),
    {
        match self {
            OpCode::Rcr => 0x00,
            OpCode::Rbm => 0x3A,
            OpCode::Wcr => 0x40,
            OpCode::Wbm => 0x7A,
            OpCode::Bfs => 0x80,
            OpCode::Bfc => 0xA0,
            OpCode::Src => 0xFF,
        }
    }
}

} // verus!
