use vstd::prelude::*;

verus! {

/// The sixteen LC-3 opcodes.
pub enum Opcode {
    /// branch
    OpBR,
    /// add
    OpADD,
    /// load
    OpLD,
    /// store
    OpST,
    /// jump register
    OpJSR,
    /// bitwise and
    OpAND,
    /// load register
    OpLDR,
    /// store register
    OpSTR,
    /// unused
    OpRTI,
    /// bitwise not
    OpNOT,
    /// load indirect
    OpLDI,
    /// store indirect
    OpSTI,
    /// jump
    OpJMP,
    /// reserved (unused)
    OpRES,
    /// load effective address
    OpLEA,
    /// execute trap
    OpTRAP,
}

impl Opcode {
    /// The opcode's number, held in bits 15..12 of an instruction.
    pub open spec fn code(self) -> u16 {
        match self {
            Opcode::OpBR => 0x0,
            Opcode::OpADD => 0x1,
            Opcode::OpLD => 0x2,
            Opcode::OpST => 0x3,
            Opcode::OpJSR => 0x4,
            Opcode::OpAND => 0x5,
            Opcode::OpLDR => 0x6,
            Opcode::OpSTR => 0x7,
            Opcode::OpRTI => 0x8,
            Opcode::OpNOT => 0x9,
            Opcode::OpLDI => 0xA,
            Opcode::OpSTI => 0xB,
            Opcode::OpJMP => 0xC,
            Opcode::OpRES => 0xD,
            Opcode::OpLEA => 0xE,
            Opcode::OpTRAP => 0xF,
        }
    }
}

/// Condition flags.
pub enum Flags {
    FlPos,
    FlZro,
    FlNeg,
}

impl Flags {
    /// The flag's bit: `1` positive, `2` zero, `4` negative.
    pub open spec fn code(self) -> u16 {
        match self {
            Flags::FlPos => 0x1,
            Flags::FlZro => 0x2,
            Flags::FlNeg => 0x4,
        }
    }
}

/// Trap routines.
pub enum Trap {
    /// get character from keyboard, not echoed onto the terminal
    TrapGetc,
    /// output a character
    TrapOut,
    /// output a word string
    TrapPuts,
    /// get character from keyboard, echoed onto the terminal
    TrapIn,
    /// output a byte string
    TrapPutsp,
    /// halt the program
    TrapHalt,
}

impl Trap {
    /// The routine's number, `0x20` for `TrapGetc` up to `0x25` for `TrapHalt`.
    pub open spec fn code(self) -> u16 {
        match self {
            Trap::TrapGetc => 0x20,
            Trap::TrapOut => 0x21,
            Trap::TrapPuts => 0x22,
            Trap::TrapIn => 0x23,
            Trap::TrapPutsp => 0x24,
            Trap::TrapHalt => 0x25,
        }
    }

    /// The trap routine numbered `num`, for `num` in `0x20..=0x25`; any other
    /// number is a panic.
    pub fn get_by_num(num: u16) -> (r: Trap)
        requires
            0x20 <= num <= 0x25,
        ensures
            r.code() == num,
    {
        match num {
            0x20 => Trap::TrapGetc,
            0x21 => Trap::TrapOut,
            0x22 => Trap::TrapPuts,
            0x23 => Trap::TrapIn,
            0x24 => Trap::TrapPutsp,
            0x25 => Trap::TrapHalt,
            _ => {
                assert(false);
                Trap::TrapHalt
            },
        }
    }
}

} // verus!
