use vstd::prelude::*;

verus! {

/// Trap routines.
pub enum Trap {
    /// get character from keyboard, not echoed onto the terminal
    TrapGetc,
    /// output a character
    TrapOut,
    /// output a word string
    TrapPuts,
    /// get character from keyboard, echoed onto the terminal
    TrapIn,
    /// output a byte string
    TrapPutsp,
    /// halt the program
    TrapHalt,
}

impl Trap {
    /// The routine's number, `0x20` for `TrapGetc` up to `0x25` for `TrapHalt`.
    pub open spec fn code(self) -> u16 {
        match self {
            Trap::TrapGetc => 0x20,
            Trap::TrapOut => 0x21,
            Trap::TrapPuts => 0x22,
            Trap::TrapIn => 0x23,
            Trap::TrapPutsp => 0x24,
            Trap::TrapHalt => 0x25,
        }
    }

    /// The trap routine numbered `value`, for `value` in `0x20..=0x25`; any other
    /// number is a panic.
    pub fn get_by_num(value: u16) -> (r: Trap)
        requires
            0x20 <= value <= 0x25,
        ensures
            r.code() == value,
    {
        match value {
            0x20 => Trap::TrapGetc,
            0x21 => Trap::TrapOut,
            0x22 => Trap::TrapPuts,
            0x23 => Trap::TrapIn,
            0x24 => Trap::TrapPutsp,
            0x25 => Trap::TrapHalt,
            _ => {
                assert(false);
                Trap::TrapHalt
            },
        }
    }
}

} // verus!
