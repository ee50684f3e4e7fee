use vstd::prelude::*;
use crate::error::{Result, VmError};
use crate::text::{decimal, hex4, push_decimal, push_hex4};

verus! {




/// `x` reduced modulo 2^16, as a word.
pub open spec fn wrap16(x: int) -> u16 {
    (x % 0x10000) as u16
}

/// LC-3 memory address (16-bit).
#[derive(Debug, Clone, Copy, PartialEq, Eq, PartialOrd, Ord)]
pub struct Address(pub u16);

impl Address {
    /// The highest address.
    pub fn max() -> (r: Address)
        ensures
            r.0 == 0xFFFF,
    {
        Address(0xFFFF)
    }

    /// The address `offset` words away, wrapping around the 16-bit space.
    pub fn offset(self, offset: i16) -> (r: Address)
        ensures
            r.0 == wrap16(self.0 + offset),
    {
        Address(self.0.wrapping_add_signed(offset))
    }

    /// The address as `0x` and four upper-case hexadecimal digits.
    pub fn to_string(&self) -> (r: String)
        ensures
            r@ == "0x"@ + hex4(self.0),
    {
        let mut r = String::new();
        r.append("0x");
        push_hex4(&mut r, self.0);
        r
    }

    /// The address as an index into memory.
    pub fn usize(self) -> (r: usize)
        ensures
            r == self.0,
    {
        self.0 as usize
    }
}


impl TryFrom<u16> for Address {
    type Error = VmError;

    fn try_from(value: u16) -> (r: Result<Self>) {
        Ok(Address(value))
    }
}

impl vstd::std_specs::convert::TryFromSpecImpl<u16> for Address {
    open spec fn obeys_try_from_spec() -> bool {
        true
    }

    open spec fn try_from_spec(v: u16) -> Result<Self> {
        Ok(Address(v))
    }
}

/// LC-3 register identifier.
#[derive(Debug, Clone, Copy, PartialEq, Eq, Hash)]
pub enum Register {
    R0,
    R1,
    R2,
    R3,
    R4,
    R5,
    R6,
    R7,
}

/// The register with number `n`, for `n < 8`.
pub open spec fn register_of(n: int) -> Register {
    if n == 0 {
        Register::R0
    } else if n == 1 {
        Register::R1
    } else if n == 2 {
        Register::R2
    } else if n == 3 {
        Register::R3
    } else if n == 4 {
        Register::R4
    } else if n == 5 {
        Register::R5
    } else if n == 6 {
        Register::R6
    } else {
        Register::R7
    }
}

impl Register {
    /// Number of general-purpose registers.
    pub const COUNT: usize = 8;

    /// The register's number, `0` for `R0` up to `7` for `R7`.
    pub open spec fn num(self) -> nat {
        match self {
            Register::R0 => 0,
            Register::R1 => 1,
            Register::R2 => 2,
            Register::R3 => 3,
            Register::R4 => 4,
            Register::R5 => 5,
            Register::R6 => 6,
            Register::R7 => 7,
        }
    }

    /// The register's number, as an index into the register file.
    pub fn index(self) -> (r: usize)
        ensures
            r == self.num(),
            r < 8,
    {
        match self {
            Register::R0 => 0,
            Register::R1 => 1,
            Register::R2 => 2,
            Register::R3 => 3,
            Register::R4 => 4,
            Register::R5 => 5,
            Register::R6 => 6,
            Register::R7 => 7,
        }
    }

    /// The register's name: `R` and its number.
    pub fn to_string(&self) -> (r: String)
        ensures
            r@ == "R"@ + decimal(self.num()),
    {
        let mut r = String::new();
        r.append("R");
        push_decimal(&mut r, self.index() as u32);
        r
    }

    /// All registers, in order of their numbers.
    pub fn all() -> (r: [Register; 8])
        ensures
            forall|i: int| 0 <= i < 8 ==> #[trigger] r@[i] == register_of(i),
    {
        [
            Register::R0,
            Register::R1,
            Register::R2,
            Register::R3,
            Register::R4,
            Register::R5,
            Register::R6,
            Register::R7,
        ]
    }
}

/// What converting a number to a register gives.
pub open spec fn register_from_spec(value: u16) -> Result<Register> {
    if value < 8 {
        Ok(register_of(value as int))
    } else {
        Err(VmError::InvalidRegister(value))
    }
}

impl TryFrom<u16> for Register {
    type Error = VmError;

    fn try_from(value: u16) -> (r: Result<Self>) {
        match value {
            0 => Ok(Register::R0),
            1 => Ok(Register::R1),
            2 => Ok(Register::R2),
            3 => Ok(Register::R3),
            4 => Ok(Register::R4),
            5 => Ok(Register::R5),
            6 => Ok(Register::R6),
            7 => Ok(Register::R7),
            _ => Err(VmError::InvalidRegister(value)),
        }
    }
}

impl vstd::std_specs::convert::TryFromSpecImpl<u16> for Register {
    open spec fn obeys_try_from_spec() -> bool {
        true
    }

    open spec fn try_from_spec(v: u16) -> Result<Self> {
        register_from_spec(v)
    }
}

/// LC-3 condition flags.
#[derive(Debug, Clone, Copy, PartialEq, Eq)]
pub enum ConditionFlag {
    Positive,
    Zero,
    Negative,
}

/// The flag that a value written to a register sets.
pub open spec fn flag_of(value: u16) -> ConditionFlag {
    if value == 0 {
        ConditionFlag::Zero
    } else if value >= 0x8000 {
        ConditionFlag::Negative
    } else {
        ConditionFlag::Positive
    }
}

impl ConditionFlag {
    /// The flag's bit in a branch condition: `1` positive, `2` zero, `4` negative.
    pub open spec fn mask(self) -> u16 {
        match self {
            ConditionFlag::Positive => 0x1,
            ConditionFlag::Zero => 0x2,
            ConditionFlag::Negative => 0x4,
        }
    }

    /// The flag's bit in a branch condition.
    pub fn bits(self) -> (r: u16)
        ensures
            r == self.mask(),
    {
        match self {
            ConditionFlag::Positive => 0x1,
            ConditionFlag::Zero => 0x2,
            ConditionFlag::Negative => 0x4,
        }
    }

    /// The flag's name: `POS`, `ZRO` or `NEG`.
    pub fn to_string(&self) -> (r: String)
        ensures
            r@ == match self {
                ConditionFlag::Positive => "POS"@,
                ConditionFlag::Zero => "ZRO"@,
                ConditionFlag::Negative => "NEG"@,
            },
    {
        match self {
            ConditionFlag::Positive => String::from_str("POS"),
            ConditionFlag::Zero => String::from_str("ZRO"),
            ConditionFlag::Negative => String::from_str("NEG"),
        }
    }

    /// The flag for `value`: zero, negative when bit 15 is set, positive otherwise.
    pub fn from_value(value: u16) -> (r: Self)
        ensures
            r == flag_of(value),
    {
        if value == 0 {
            ConditionFlag::Zero
        } else if value & 0x8000 != 0 {
            assert(value & 0x8000 != 0 ==> value >= 0x8000) by (bit_vector);
            ConditionFlag::Negative
        } else {
            assert(value & 0x8000 == 0 ==> value < 0x8000) by (bit_vector);
            ConditionFlag::Positive
        }
    }
}

} // verus!
