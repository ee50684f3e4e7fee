//! Properties of the machine that hold across its operations.
use vstd::prelude::*;
use crate::command::{Command, TrapVector, command_text, condition_text, reg_text, second_operand_text, decode, decode_add, decode_and, signed_low, trap_vector_from};
use crate::error::VmError;
use crate::memory::{Memory, lemma_memory_len, load_image_spec, read_spec, write_spec};
use crate::types::{Address, Register, flag_of, register_from_spec, register_of, wrap16, ConditionFlag};
use crate::text::{decimal, digit_text, hex4, hex_digit_text, signed_decimal};
use crate::vm::{MachineState, StepOutcome, execute_spec, step_spec};

verus! {

/// Reading an address after writing `value` there gives `value`; every other
/// address reads as before.
pub proof fn law_read_after_write(m: Memory, address: Address, value: u16, other: Address)
    ensures
        read_spec(write_spec(m@, address, value), address) == Ok::<u16, VmError>(value),
        other != address ==> read_spec(write_spec(m@, address, value), other) == read_spec(
            m@,
            other,
        ),
{
    lemma_memory_len(&m);
}

/// After a successful image load at `start`, reading `start + k` gives word `k` of the
/// image, high byte first; every address outside the image reads as before. A refused
/// load changes nothing.
pub proof fn law_read_after_load(m: Memory, start: Address, bytes: Seq<u8>, address: Address)
    ensures
        load_image_spec(m@, start, bytes).0 is Ok ==> {
            let k = address.0 - start.0;
            let after = load_image_spec(m@, start, bytes).1;
            &&& 0 <= k < bytes.len() / 2 ==> (read_spec(after, address) matches Ok(v) && v as int
                == bytes[2 * k] * 0x100 + bytes[2 * k + 1])
            &&& !(0 <= k < bytes.len() / 2) ==> read_spec(after, address) == read_spec(m@, address)
        },
        load_image_spec(m@, start, bytes).0 is Err ==> load_image_spec(m@, start, bytes).1 == m@,
{
    lemma_memory_len(&m);
}

/// Decoding fails only on a `TRAP` whose low byte names no routine, and then names
/// that byte; every other instruction word decodes.
pub proof fn law_decode_fails_only_on_unknown_traps(i: u16)
    ensures
        decode(i) is Err <==> (i / 0x1000 == 0xF && !(0x20 <= i % 0x100 <= 0x25)),
        decode(i) is Err ==> decode(i) == Err::<Command, VmError>(
            VmError::InvalidTrapVector((i % 0x100) as u8),
        ),
{
}

/// A register's number converts back to that register, and every number below eight
/// names the register with that number.
pub proof fn law_register_numbers(r: Register, n: u16)
    ensures
        register_from_spec(r.num() as u16) == Ok::<Register, VmError>(r),
        n < 8 ==> register_of(n as int).num() == n,
        Register::R0.num() == 0 && Register::R1.num() == 1 && Register::R2.num() == 2
            && Register::R3.num() == 3 && Register::R4.num() == 4 && Register::R5.num() == 5
            && Register::R6.num() == 6 && Register::R7.num() == 7,
{
}

/// A trap vector's number converts back to that vector, and the numbers that convert
/// are exactly `0x20..=0x25`.
pub proof fn law_trap_vector_numbers(t: TrapVector, v: u8)
    ensures
        trap_vector_from(t.code()) == Ok::<TrapVector, VmError>(t),
        trap_vector_from(v) is Ok <==> 0x20 <= v <= 0x25,
        trap_vector_from(v) matches Ok(u) ==> u.code() == v,
        trap_vector_from(0x20) == Ok::<TrapVector, VmError>(TrapVector::GetC),
        trap_vector_from(0x21) == Ok::<TrapVector, VmError>(TrapVector::Out),
        trap_vector_from(0x22) == Ok::<TrapVector, VmError>(TrapVector::Puts),
        trap_vector_from(0x23) == Ok::<TrapVector, VmError>(TrapVector::In),
        trap_vector_from(0x24) == Ok::<TrapVector, VmError>(TrapVector::PutSp),
        trap_vector_from(0x25) == Ok::<TrapVector, VmError>(TrapVector::Halt),
{
}

/// Moving an address by `offset` and back again returns to it; moving by zero stays.
pub proof fn law_offset_round_trip(a: u16, offset: i16)
    requires
        offset > i16::MIN,
    ensures
        wrap16(wrap16(a + offset) + (-offset)) == a,
        wrap16(a + 0) == a,
        wrap16(a + offset) as int == (a + offset) % 0x10000,
{
}

/// Each value sets exactly one condition flag.
pub proof fn law_one_flag(value: u16)
    ensures
        (flag_of(value) == ConditionFlag::Zero) <==> value == 0,
        (flag_of(value) == ConditionFlag::Negative) <==> value >= 0x8000,
        (flag_of(value) == ConditionFlag::Positive) <==> (0 < value < 0x8000),
{
}

/// The result of `ADD`, `AND`, `LD`, `LDI`, `LDR`, `LEA` and `NOT` goes to the
/// destination register, and the condition flag then describes that register.
pub proof fn law_flag_follows_destination(s: MachineState, cmd: Command, dr: Register)
    requires
        s.registers.len() == 8,
        match cmd {
            Command::Add { dr: d, .. } => d == dr,
            Command::And { dr: d, .. } => d == dr,
            Command::Load { dr: d, .. } => d == dr,
            Command::LoadIndirect { dr: d, .. } => d == dr,
            Command::LoadRegister { dr: d, .. } => d == dr,
            Command::LoadEffectiveAddress { dr: d, .. } => d == dr,
            Command::Not { dr: d, .. } => d == dr,
            _ => false,
        },
    ensures
        execute_spec(s, cmd) matches Ok(s2) ==> s2.condition_flag == flag_of(s2.reg(dr)),
{
    reveal(execute_spec);
}

/// Only `ST`, `STI` and `STR` change memory, and they change neither the registers
/// nor the flag.
pub proof fn law_memory_written_only_by_stores(s: MachineState, cmd: Command)
    ensures
        execute_spec(s, cmd) matches Ok(s2) ==> match cmd {
            Command::Store { .. } | Command::StoreIndirect { .. } | Command::StoreRegister { .. } => {
                &&& s2.registers == s.registers
                &&& s2.condition_flag == s.condition_flag
                &&& s2.program_counter == s.program_counter
            },
            _ => s2.memory == s.memory,
        },
{
    reveal(execute_spec);
}

/// Where a step leaves the program counter. Every instruction moves it past itself;
/// a taken branch then goes `offset` words further, `JMP` and `JSRR` go to the base
/// register's value (read before `R7` is written), and `JSR` goes `offset` words
/// further. `JSR`, `JSRR` and `TRAP` leave the address of the next instruction in `R7`;
/// a trap step changes nothing else.
pub proof fn law_step_program_counter(s: MachineState)
    requires
        s.registers.len() == 8,
    ensures
        step_spec(s) matches Ok((_, s2)) ==> {
            let next = wrap16(s.program_counter + 1);
            match decode(s.word(s.program_counter)) {
                Ok(Command::Branch { condition, offset }) => s2.program_counter == if condition
                    & s.condition_flag.mask() != 0 {
                    wrap16(next + offset)
                } else {
                    next
                },
                Ok(Command::Jump { base_r }) => s2.program_counter == s.reg(base_r),
                Ok(Command::JumpSubroutine { offset: Some(o), .. }) => s2.program_counter == wrap16(
                    next + o,
                ) && s2.reg(Register::R7) == next,
                Ok(Command::JumpSubroutine { offset: None, base_r: Some(b) }) => s2.program_counter
                    == s.reg(b) && s2.reg(Register::R7) == next,
                Ok(Command::Trap { .. }) => s2 == s.set_pc(next).set_reg(Register::R7, next),
                Ok(_) => s2.program_counter == next,
                Err(_) => true,
            }
        },
{
    reveal(execute_spec);
}

/// `JSR` and `JSRR` keep the program counter they start from, the address of the
/// next instruction, in `R7`.
pub proof fn law_subroutine_links(s: MachineState, offset: Option<i16>, base_r: Option<Register>)
    requires
        s.registers.len() == 8,
    ensures
        execute_spec(s, Command::JumpSubroutine { offset, base_r }) matches Ok(s2) ==> s2.reg(
            Register::R7,
        ) == s.program_counter,
{
    reveal(execute_spec);
}

/// `NOT` applied twice to a register gives back its value.
pub proof fn law_not_twice(s: MachineState, r: Register)
    requires
        s.registers.len() == 8,
    ensures
        execute_spec(s, Command::Not { dr: r, sr: r }) matches Ok(s1) && execute_spec(
            s1,
            Command::Not { dr: r, sr: r },
        ) matches Ok(s2) && s2.reg(r) == s.reg(r),
{
    reveal(execute_spec);
}

// What each instruction does, stated over the instruction word's bits and the
// machine's registers and memory.

/// The field of `w` that starts at bit `log2(unit)` and holds `size` values.
pub open spec fn field(w: u16, unit: int, size: int) -> int {
    (w as int / unit) % size
}

/// A field of `size` values (a power of two) read in two's complement.
pub open spec fn signed(v: int, size: int) -> int {
    if 2 * v >= size {
        v - size
    } else {
        v
    }
}

/// The flag the machine shows after writing `v` to a register.
pub open spec fn flag_for(v: int) -> ConditionFlag {
    if v == 0 {
        ConditionFlag::Zero
    } else if v >= 0x8000 {
        ConditionFlag::Negative
    } else {
        ConditionFlag::Positive
    }
}

/// The well-formed machines: eight registers, 65,536 words.
pub open spec fn well_formed(s: MachineState) -> bool {
    s.registers.len() == 8 && s.memory.len() == 0x10000
}

/// The instruction word at the program counter.
pub open spec fn fetched(s: MachineState) -> u16 {
    s.memory[s.program_counter as int]
}

/// The address after the program counter.
pub open spec fn next_address(s: MachineState) -> int {
    (s.program_counter + 1) % 0x10000
}

/// `s2` is `s` with register `d` set to `v`, the flag set from `v`, and the program
/// counter moved to the next word.
pub open spec fn wrote_register(s: MachineState, s2: MachineState, d: int, v: int) -> bool {
    &&& s2.registers.len() == 8
    &&& s2.registers[d] as int == v
    &&& forall|k: int| 0 <= k < 8 && k != d ==> s2.registers[k] == s.registers[k]
    &&& s2.condition_flag == flag_for(v)
    &&& s2.memory == s.memory
    &&& s2.program_counter == next_address(s)
    &&& s2.running == s.running
}

/// `s2` is `s` with `value` stored at `address` and the program counter moved on.
pub open spec fn stored(s: MachineState, s2: MachineState, address: int, value: u16) -> bool {
    &&& s2.memory == s.memory.update(address, value)
    &&& s2.registers == s.registers
    &&& s2.condition_flag == s.condition_flag
    &&& s2.program_counter == next_address(s)
    &&& s2.running == s.running
}

/// The operands that an `ADD` or `AND` step works on, and the step itself.
proof fn lemma_arith_step(s: MachineState)
    requires
        well_formed(s),
        fetched(s) / 0x1000 == 1 || fetched(s) / 0x1000 == 5,
    ensures
        ({
            let w = fetched(s);
            let cmd = if w / 0x1000 == 1 { decode_add(w) } else { decode_and(w) };
            let advanced = s.set_pc(wrap16(s.program_counter + 1));
            &&& decode(w) == Ok::<Command, VmError>(cmd)
            &&& step_spec(s) == match execute_spec(advanced, cmd) {
                Ok(s2) => Ok::<(StepOutcome, MachineState), VmError>((StepOutcome::Executed, s2)),
                Err(e) => Err(e),
            }
            &&& register_of(field(w, 0x200, 8)).num() == field(w, 0x200, 8)
            &&& register_of(field(w, 0x40, 8)).num() == field(w, 0x40, 8)
            &&& register_of(field(w, 1, 8)).num() == field(w, 1, 8)
            &&& wrap16(signed_low(w, 0x20)) as int == (signed(field(w, 1, 0x20), 0x20) + 0x10000)
                % 0x10000
        }),
{
    let w = fetched(s);
    assert(signed_low(w, 0x20) == signed(field(w, 1, 0x20), 0x20));
}

/// `ADD` (opcode 1): the destination (bits 11..9) gets the first source (bits 8..6)
/// plus either the second source (bits 2..0) or, when bit 5 is set, the five-bit
/// immediate in two's complement, modulo 2^16; the flag follows the result.
pub proof fn law_add(s: MachineState)
    requires
        well_formed(s),
        fetched(s) / 0x1000 == 1,
    ensures
        ({
            let w = fetched(s);
            let a = s.registers[field(w, 0x40, 8)] as int;
            let b = if field(w, 0x20, 2) == 1 {
                signed(field(w, 1, 0x20), 0x20)
            } else {
                s.registers[field(w, 1, 8)] as int
            };
            step_spec(s) matches Ok((StepOutcome::Executed, s2)) && wrote_register(
                s,
                s2,
                field(w, 0x200, 8),
                (a + b) % 0x10000,
            )
        }),
{
    lemma_arith_step(s);
    let w = fetched(s);
    let a = s.registers[field(w, 0x40, 8)] as int;
    let advanced = s.set_pc(wrap16(s.program_counter + 1));
    let dr = register_of(field(w, 0x200, 8));
    let sr1 = register_of(field(w, 0x40, 8));
    assert(advanced.reg(sr1) as int == a);
    if field(w, 0x20, 2) == 1 {
        let t = signed(field(w, 1, 0x20), 0x20);
        let imm = wrap16(signed_low(w, 0x20));
        let v = wrap16(a + imm);
        assert(decode_add(w) == Command::Add { dr, sr1, sr2: None, imm5: Some(imm) });
        assert(execute_spec(advanced, decode_add(w)) == Ok::<MachineState, VmError>(
            advanced.set_result(dr, v),
        )) by {
            reveal(execute_spec);
        }
        if t < 0 {
            assert(imm as int == t + 0x10000);
        } else {
            assert(imm as int == t);
        }
        assert(v as int == (a + t) % 0x10000);
    } else {
        let sr2 = register_of(field(w, 1, 8));
        let v = wrap16(a + advanced.reg(sr2));
        assert(decode_add(w) == Command::Add { dr, sr1, sr2: Some(sr2), imm5: None });
        assert(execute_spec(advanced, decode_add(w)) == Ok::<MachineState, VmError>(
            advanced.set_result(dr, v),
        )) by {
            reveal(execute_spec);
        }
    }
}

/// `AND` (opcode 5): the destination gets the bitwise and of the first source with
/// either the second source or the immediate sign-extended to 16 bits.
pub proof fn law_and(s: MachineState)
    requires
        well_formed(s),
        fetched(s) / 0x1000 == 5,
    ensures
        ({
            let w = fetched(s);
            let a = s.registers[field(w, 0x40, 8)];
            let b = if field(w, 0x20, 2) == 1 {
                ((signed(field(w, 1, 0x20), 0x20) + 0x10000) % 0x10000) as u16
            } else {
                s.registers[field(w, 1, 8)]
            };
            step_spec(s) matches Ok((StepOutcome::Executed, s2)) && wrote_register(
                s,
                s2,
                field(w, 0x200, 8),
                (a & b) as int,
            )
        }),
{
    lemma_arith_step(s);
    reveal(execute_spec);
}

/// `NOT` (opcode 9): the destination gets the complement of the source (bits 8..6).
pub proof fn law_not(s: MachineState)
    requires
        well_formed(s),
        fetched(s) / 0x1000 == 9,
    ensures
        ({
            let w = fetched(s);
            step_spec(s) matches Ok((StepOutcome::Executed, s2)) && wrote_register(
                s,
                s2,
                field(w, 0x200, 8),
                0xFFFF - s.registers[field(w, 0x40, 8)],
            )
        }),
{
    reveal(execute_spec);
}

/// `LD` (opcode 2), `LDI` (opcode 10) and `LEA` (opcode 14): with `a` the address of the
/// next instruction plus the nine-bit offset in two's complement, modulo 2^16, `LD`
/// loads the word at `a`, `LDI` the word at the address stored at `a`, and `LEA` `a`
/// itself.
pub proof fn law_pc_relative_loads(s: MachineState)
    requires
        well_formed(s),
        fetched(s) / 0x1000 == 2 || fetched(s) / 0x1000 == 10 || fetched(s) / 0x1000 == 14,
    ensures
        ({
            let w = fetched(s);
            let a = (next_address(s) + signed(field(w, 1, 0x200), 0x200)) % 0x10000;
            let v = if w / 0x1000 == 2 {
                s.memory[a] as int
            } else if w / 0x1000 == 10 {
                s.memory[s.memory[a] as int] as int
            } else {
                a
            };
            step_spec(s) matches Ok((StepOutcome::Executed, s2)) && wrote_register(
                s,
                s2,
                field(w, 0x200, 8),
                v,
            )
        }),
{
    reveal(execute_spec);
}

/// `LDR` (opcode 6): the destination gets the word at the base register (bits 8..6)
/// plus the six-bit offset in two's complement, modulo 2^16.
pub proof fn law_load_register(s: MachineState)
    requires
        well_formed(s),
        fetched(s) / 0x1000 == 6,
    ensures
        ({
            let w = fetched(s);
            let a = (s.registers[field(w, 0x40, 8)] + signed(field(w, 1, 0x40), 0x40)) % 0x10000;
            step_spec(s) matches Ok((StepOutcome::Executed, s2)) && wrote_register(
                s,
                s2,
                field(w, 0x200, 8),
                s.memory[a] as int,
            )
        }),
{
    reveal(execute_spec);
}

/// `ST` (opcode 3), `STI` (opcode 11) and `STR` (opcode 7) store the full source
/// register (bits 11..9): `ST` at the next instruction's address plus the nine-bit
/// offset, `STI` at the address stored there, `STR` at the base register (bits 8..6)
/// plus the six-bit offset, all modulo 2^16. Registers and flag stay as they were.
pub proof fn law_stores(s: MachineState)
    requires
        well_formed(s),
        fetched(s) / 0x1000 == 3 || fetched(s) / 0x1000 == 11 || fetched(s) / 0x1000 == 7,
    ensures
        ({
            let w = fetched(s);
            let rel = (next_address(s) + signed(field(w, 1, 0x200), 0x200)) % 0x10000;
            let a = if w / 0x1000 == 3 {
                rel
            } else if w / 0x1000 == 11 {
                s.memory[rel] as int
            } else {
                (s.registers[field(w, 0x40, 8)] + signed(field(w, 1, 0x40), 0x40)) % 0x10000
            };
            step_spec(s) matches Ok((StepOutcome::Executed, s2)) && stored(
                s,
                s2,
                a,
                s.registers[field(w, 0x200, 8)],
            )
        }),
{
    reveal(execute_spec);
}

/// `BR` (opcode 0): bits 11, 10 and 9 select the negative, zero and positive flags;
/// when the current flag is selected, the program counter goes to the next
/// instruction's address plus the nine-bit offset, modulo 2^16, otherwise to the next
/// instruction. Nothing else changes.
pub proof fn law_branch(s: MachineState)
    requires
        well_formed(s),
        fetched(s) / 0x1000 == 0,
    ensures
        ({
            let w = fetched(s);
            let c = field(w, 0x200, 8);
            let taken = (c / 4 == 1 && s.condition_flag == ConditionFlag::Negative) || ((c / 2) % 2
                == 1 && s.condition_flag == ConditionFlag::Zero) || (c % 2 == 1 && s.condition_flag
                == ConditionFlag::Positive);
            let target = if taken {
                (next_address(s) + signed(field(w, 1, 0x200), 0x200)) % 0x10000
            } else {
                next_address(s)
            };
            step_spec(s) matches Ok((StepOutcome::Executed, s2)) && s2.program_counter == target
                && s2.registers == s.registers && s2.memory == s.memory && s2.condition_flag
                == s.condition_flag && s2.running == s.running
        }),
{
    reveal(execute_spec);
    let c = ((fetched(s) as int / 0x200) % 8) as u16;
    assert(c < 8 ==> ((c & 4) != 0) == (c / 4 == 1) && ((c & 2) != 0) == ((c / 2) % 2 == 1) && ((c
        & 1) != 0) == (c % 2 == 1)) by (bit_vector);
}

/// `JMP` (opcode 12) goes to the base register (bits 8..6). `JSR` (opcode 4, bit 11
/// set) goes to the next instruction's address plus the eleven-bit offset, modulo
/// 2^16; `JSRR` (bit 11 clear) goes to the base register as it was before the call.
/// Both leave the next instruction's address in `R7`; nothing else changes.
pub proof fn law_jumps(s: MachineState)
    requires
        well_formed(s),
        fetched(s) / 0x1000 == 12 || fetched(s) / 0x1000 == 4,
    ensures
        ({
            let w = fetched(s);
            let base = s.registers[field(w, 0x40, 8)] as int;
            step_spec(s) matches Ok((StepOutcome::Executed, s2)) && s2.memory == s.memory
                && s2.condition_flag == s.condition_flag && s2.running == s.running
                && s2.registers.len() == 8 && (forall|k: int|
                0 <= k < 7 ==> s2.registers[k] == s.registers[k]) && if w / 0x1000 == 12 {
                s2.program_counter == base && s2.registers[7] == s.registers[7]
            } else {
                &&& s2.registers[7] as int == next_address(s)
                &&& s2.program_counter == if field(w, 0x800, 2) == 1 {
                    (next_address(s) + signed(field(w, 1, 0x800), 0x800)) % 0x10000
                } else {
                    base
                }
            }
        }),
{
    reveal(execute_spec);
}

/// `RTI` (opcode 8) stops the machine and moves on; the reserved opcode 13 is refused
/// with the instruction word, changing nothing.
pub proof fn law_return_and_reserved(s: MachineState)
    requires
        well_formed(s),
    ensures
        fetched(s) / 0x1000 == 8 ==> (step_spec(s) matches Ok((StepOutcome::Executed, s2))
            && s2.running == false && s2.program_counter == next_address(s) && s2.registers
            == s.registers && s2.memory == s.memory && s2.condition_flag == s.condition_flag),
        fetched(s) / 0x1000 == 13 ==> step_spec(s) == Err::<(StepOutcome, MachineState), VmError>(
            VmError::InvalidInstruction(fetched(s)),
        ),
{
    reveal(execute_spec);
}

/// `TRAP` (opcode 15): when the low byte is `0x20..=0x25` the step hands the caller the
/// routine with that number, leaves the next instruction's address in `R7` and in the
/// program counter, and changes nothing else; any other low byte is refused with that
/// byte.
pub proof fn law_trap(s: MachineState)
    requires
        well_formed(s),
        fetched(s) / 0x1000 == 15,
    ensures
        ({
            let low = field(fetched(s), 1, 0x100);
            &&& 0x20 <= low <= 0x25 ==> (step_spec(s) matches Ok((StepOutcome::Trap(v), s2))
                && v.code() == low && s2.program_counter == next_address(s) && s2.registers.len()
                == 8 && s2.registers[7] as int == next_address(s) && (forall|k: int|
                0 <= k < 7 ==> s2.registers[k] == s.registers[k]) && s2.memory == s.memory
                && s2.condition_flag == s.condition_flag && s2.running == s.running)
            &&& !(0x20 <= low <= 0x25) ==> step_spec(s) == Err::<(StepOutcome, MachineState), VmError>(
                VmError::InvalidTrapVector(low as u8),
            )
        }),
{
}

/// What decoding gives, opcode by opcode, over the word's bits: registers are the
/// three-bit fields at bits 11..9, 8..6 and 2..0; offsets are the low 9, 11 or 6 bits
/// read in two's complement; the `ADD`/`AND` immediate is the low five bits read in
/// two's complement and taken as a 16-bit word.
pub proof fn law_decode_fields(w: u16)
    ensures
        w / 0x1000 == 0 ==> (decode(w) matches Ok(Command::Branch { condition, offset })
            && condition as int == field(w, 0x200, 8) && offset as int == signed(
            field(w, 1, 0x200),
            0x200,
        )),
        w / 0x1000 == 1 ==> (decode(w) matches Ok(Command::Add { dr, sr1, sr2, imm5 })
            && dr.num() == field(w, 0x200, 8) && sr1.num() == field(w, 0x40, 8) && if field(
            w,
            0x20,
            2,
        ) == 1 {
            sr2 is None && (imm5 matches Some(x) && x as int == (signed(field(w, 1, 0x20), 0x20)
                + 0x10000) % 0x10000)
        } else {
            imm5 is None && (sr2 matches Some(r) && r.num() == field(w, 1, 8))
        }),
        w / 0x1000 == 5 ==> (decode(w) matches Ok(Command::And { dr, sr1, sr2, imm5 })
            && dr.num() == field(w, 0x200, 8) && sr1.num() == field(w, 0x40, 8) && if field(
            w,
            0x20,
            2,
        ) == 1 {
            sr2 is None && (imm5 matches Some(x) && x as int == (signed(field(w, 1, 0x20), 0x20)
                + 0x10000) % 0x10000)
        } else {
            imm5 is None && (sr2 matches Some(r) && r.num() == field(w, 1, 8))
        }),
        w / 0x1000 == 2 ==> (decode(w) matches Ok(Command::Load { dr, offset }) && dr.num()
            == field(w, 0x200, 8) && offset as int == signed(field(w, 1, 0x200), 0x200)),
        w / 0x1000 == 10 ==> (decode(w) matches Ok(Command::LoadIndirect { dr, offset })
            && dr.num() == field(w, 0x200, 8) && offset as int == signed(field(w, 1, 0x200), 0x200)),
        w / 0x1000 == 14 ==> (decode(w) matches Ok(Command::LoadEffectiveAddress { dr, offset })
            && dr.num() == field(w, 0x200, 8) && offset as int == signed(field(w, 1, 0x200), 0x200)),
        w / 0x1000 == 3 ==> (decode(w) matches Ok(Command::Store { sr, offset }) && sr.num()
            == field(w, 0x200, 8) && offset as int == signed(field(w, 1, 0x200), 0x200)),
        w / 0x1000 == 11 ==> (decode(w) matches Ok(Command::StoreIndirect { sr, offset })
            && sr.num() == field(w, 0x200, 8) && offset as int == signed(field(w, 1, 0x200), 0x200)),
        w / 0x1000 == 6 ==> (decode(w) matches Ok(Command::LoadRegister { dr, base_r, offset })
            && dr.num() == field(w, 0x200, 8) && base_r.num() == field(w, 0x40, 8) && offset as int
            == signed(field(w, 1, 0x40), 0x40)),
        w / 0x1000 == 7 ==> (decode(w) matches Ok(Command::StoreRegister { sr, base_r, offset })
            && sr.num() == field(w, 0x200, 8) && base_r.num() == field(w, 0x40, 8) && offset as int
            == signed(field(w, 1, 0x40), 0x40)),
        w / 0x1000 == 4 ==> (decode(w) matches Ok(Command::JumpSubroutine { offset, base_r })
            && if field(w, 0x800, 2) == 1 {
            base_r is None && (offset matches Some(o) && o as int == signed(
                field(w, 1, 0x800),
                0x800,
            ))
        } else {
            offset is None && (base_r matches Some(b) && b.num() == field(w, 0x40, 8))
        }),
        w / 0x1000 == 12 ==> (decode(w) matches Ok(Command::Jump { base_r }) && base_r.num()
            == field(w, 0x40, 8)),
        w / 0x1000 == 9 ==> (decode(w) matches Ok(Command::Not { dr, sr }) && dr.num() == field(
            w,
            0x200,
            8,
        ) && sr.num() == field(w, 0x40, 8)),
        w / 0x1000 == 8 ==> decode(w) == Ok::<Command, VmError>(Command::ReturnFromInterrupt),
        w / 0x1000 == 13 ==> decode(w) == Ok::<Command, VmError>(Command::Reserved),
        w / 0x1000 == 15 && 0x20 <= field(w, 1, 0x100) <= 0x25 ==> (decode(w) matches Ok(
            Command::Trap { vector },
        ) && vector.code() == field(w, 1, 0x100)),
{
    let t = signed(field(w, 1, 0x20), 0x20);
    if w / 0x1000 == 1 || w / 0x1000 == 5 {
        if field(w, 0x20, 2) == 1 {
            assert(signed_low(w, 0x20) == t);
            if t < 0 {
                assert(wrap16(t) as int == t + 0x10000);
            } else {
                assert(wrap16(t) as int == t);
            }
        }
    }
}

/// The number that a string of decimal digits denotes.
pub open spec fn decimal_value(s: Seq<char>) -> int
    decreases s.len(),
{
    if s.len() == 0 {
        0
    } else {
        decimal_value(s.drop_last()) * 10 + (s.last() as int - '0' as int)
    }
}

/// The number that a string of upper-case hexadecimal digits denotes.
pub open spec fn hex_value(s: Seq<char>) -> int
    decreases s.len(),
{
    if s.len() == 0 {
        0
    } else {
        hex_value(s.drop_last()) * 16 + if s.last() <= '9' {
            s.last() as int - '0' as int
        } else {
            s.last() as int - 'A' as int + 10
        }
    }
}

/// The characters `0` to `9`.
pub open spec fn is_decimal_digit(c: char) -> bool {
    '0' <= c <= '9'
}

/// The characters `0` to `9` and `A` to `F`.
pub open spec fn is_hex_digit(c: char) -> bool {
    ('0' <= c <= '9') || ('A' <= c <= 'F')
}

proof fn lemma_digit_chars(d: int)
    requires
        0 <= d < 16,
    ensures
        hex_digit_text(d).len() == 1,
        d < 10 ==> hex_digit_text(d)[0] as int == '0' as int + d && digit_text(d) == hex_digit_text(
            d,
        ),
        d >= 10 ==> hex_digit_text(d)[0] as int == 'A' as int + d - 10,
{
    reveal_strlit("0");
    reveal_strlit("1");
    reveal_strlit("2");
    reveal_strlit("3");
    reveal_strlit("4");
    reveal_strlit("5");
    reveal_strlit("6");
    reveal_strlit("7");
    reveal_strlit("8");
    reveal_strlit("9");
    reveal_strlit("A");
    reveal_strlit("B");
    reveal_strlit("C");
    reveal_strlit("D");
    reveal_strlit("E");
    reveal_strlit("F");
}

/// The decimal text of `n` is made of digits, has no leading zero, and denotes `n`.
pub proof fn law_decimal_denotes(n: nat)
    ensures
        decimal(n).len() >= 1,
        forall|i: int| 0 <= i < decimal(n).len() ==> is_decimal_digit(#[trigger] decimal(n)[i]),
        decimal(n)[0] == '0' ==> n == 0,
        decimal_value(decimal(n)) == n,
    decreases n,
{
    lemma_digit_chars(n as int % 10);
    if n >= 10 {
        law_decimal_denotes(n / 10);
        let a = decimal(n / 10);
        let b = digit_text(n as int % 10);
        assert((a + b).drop_last() =~= a);
        assert((a + b).last() == b[0]);
        assert((a + b)[0] == a[0]);
        assert forall|i: int| 0 <= i < (a + b).len() implies is_decimal_digit(#[trigger] (a + b)[i]) by {
            if i < a.len() {
                assert((a + b)[i] == a[i]);
            }
        }
        assert(decimal(n) == a + b);
        assert(decimal_value(a + b) == decimal_value(a) * 10 + ((a + b).last() as int - '0' as int));
        assert(decimal_value(decimal(n)) == (n / 10) * 10 + n % 10);
    } else {
        let b = digit_text(n as int);
        assert(decimal(n) == b);
        assert(b.drop_last() =~= Seq::<char>::empty());
        assert(decimal_value(b) == decimal_value(b.drop_last()) * 10 + (b.last() as int - '0' as int));
    }
}

/// The signed decimal text of `n` is `-` and the digits of `-n` when `n` is negative,
/// else the digits of `n`; either way it denotes `n`.
pub proof fn law_signed_decimal_denotes(n: int)
    ensures
        n < 0 ==> signed_decimal(n).len() >= 2 && signed_decimal(n)[0] == '-' && signed_decimal(n).drop_first()
            == decimal((-n) as nat) && decimal_value(signed_decimal(n).drop_first()) == -n,
        n >= 0 ==> signed_decimal(n) == decimal(n as nat) && decimal_value(signed_decimal(n)) == n
            && signed_decimal(n)[0] != '-',
{
    reveal_strlit("-");
    if n < 0 {
        law_decimal_denotes((-n) as nat);
        assert(signed_decimal(n).drop_first() =~= decimal((-n) as nat));
    } else {
        law_decimal_denotes(n as nat);
        assert(is_decimal_digit(decimal(n as nat)[0]));
    }
}

/// The four-digit hexadecimal text of `v` is made of upper-case hexadecimal digits and
/// denotes `v`.
pub proof fn law_hex4_denotes(v: u16)
    ensures
        hex4(v).len() == 4,
        forall|i: int| 0 <= i < 4 ==> is_hex_digit(#[trigger] hex4(v)[i]),
        hex_value(hex4(v)) == v,
{
    let d0 = (v as int / 0x1000) % 16;
    let d1 = (v as int / 0x100) % 16;
    let d2 = (v as int / 0x10) % 16;
    let d3 = v as int % 16;
    lemma_digit_chars(d0);
    lemma_digit_chars(d1);
    lemma_digit_chars(d2);
    lemma_digit_chars(d3);
    let h = hex4(v);
    assert(h[0] == hex_digit_text(d0)[0]);
    assert(h[1] == hex_digit_text(d1)[0]);
    assert(h[2] == hex_digit_text(d2)[0]);
    assert(h[3] == hex_digit_text(d3)[0]);
    assert(h.drop_last().drop_last().drop_last().drop_last() =~= Seq::<char>::empty());
    assert(h.drop_last().drop_last().drop_last() =~= seq![h[0]]);
    assert(h.drop_last().drop_last() =~= seq![h[0], h[1]]);
    assert(h.drop_last() =~= seq![h[0], h[1], h[2]]);
    assert(seq![h[0]].drop_last() =~= Seq::<char>::empty());
    assert(seq![h[0], h[1]].drop_last() =~= seq![h[0]]);
    assert(seq![h[0], h[1], h[2]].drop_last() =~= seq![h[0], h[1]]);
    assert(v as int == ((d0 * 16 + d1) * 16 + d2) * 16 + d3);
    let e = Seq::<char>::empty();
    let s1 = seq![h[0]];
    let s2 = seq![h[0], h[1]];
    let s3 = seq![h[0], h[1], h[2]];
    assert(hex_value(e) == 0);
    assert(hex_value(s1) == d0) by {
        assert(s1.drop_last() == e);
    }
    assert(hex_value(s2) == d0 * 16 + d1) by {
        assert(s2.drop_last() == s1);
    }
    assert(hex_value(s3) == (d0 * 16 + d1) * 16 + d2) by {
        assert(s3.drop_last() == s2);
    }
    assert(hex_value(h) == ((d0 * 16 + d1) * 16 + d2) * 16 + d3) by {
        assert(h.drop_last() == s3);
    }
}

/// `p` starts `t`.
pub open spec fn starts_with(t: Seq<char>, p: Seq<char>) -> bool {
    p.len() <= t.len() && t.subrange(0, p.len() as int) == p
}

proof fn lemma_starts_with_concat(p: Seq<char>, rest: Seq<char>)
    ensures
        starts_with(p + rest, p),
{
    assert((p + rest).subrange(0, p.len() as int) =~= p);
}

proof fn lemma_starts_with_extend(t: Seq<char>, p: Seq<char>, more: Seq<char>)
    requires
        starts_with(t, p),
    ensures
        starts_with(t + more, p),
{
    assert((t + more).subrange(0, p.len() as int) =~= t.subrange(0, p.len() as int));
}

/// The text of each instruction starts with its mnemonic.
pub proof fn law_command_mnemonic(c: Command)
    ensures
        match c {
            Command::Add { .. } => starts_with(command_text(c), "ADD "@),
            Command::And { .. } => starts_with(command_text(c), "AND "@),
            Command::Branch { .. } => starts_with(command_text(c), "BR"@),
            Command::Jump { .. } => starts_with(command_text(c), "JMP "@),
            Command::JumpSubroutine { offset, base_r } => starts_with(command_text(c), "JSR"@) && (
            base_r is Some && offset is None ==> starts_with(command_text(c), "JSRR "@)),
            Command::Load { .. } => starts_with(command_text(c), "LD "@),
            Command::LoadIndirect { .. } => starts_with(command_text(c), "LDI "@),
            Command::LoadRegister { .. } => starts_with(command_text(c), "LDR "@),
            Command::LoadEffectiveAddress { .. } => starts_with(command_text(c), "LEA "@),
            Command::Not { .. } => starts_with(command_text(c), "NOT "@),
            Command::ReturnFromInterrupt => command_text(c) == "RTI"@,
            Command::Store { .. } => starts_with(command_text(c), "ST "@),
            Command::StoreIndirect { .. } => starts_with(command_text(c), "STI "@),
            Command::StoreRegister { .. } => starts_with(command_text(c), "STR "@),
            Command::Trap { .. } => starts_with(command_text(c), "TRAP "@),
            Command::Reserved => command_text(c) == "RES"@,
        },
{
    reveal_strlit("JSR");
    reveal_strlit("R ");
    reveal_strlit("JSRR ");
    match c {
        Command::Add { dr, sr1, sr2, imm5 } => {
            lemma_starts_with_concat("ADD "@, reg_text(dr));
            lemma_starts_with_extend("ADD "@ + reg_text(dr), "ADD "@, ", "@);
            lemma_starts_with_extend("ADD "@ + reg_text(dr) + ", "@, "ADD "@, reg_text(sr1));
            lemma_starts_with_extend(
                "ADD "@ + reg_text(dr) + ", "@ + reg_text(sr1),
                "ADD "@,
                second_operand_text(sr2, imm5),
            );
        },
        Command::And { dr, sr1, sr2, imm5 } => {
            lemma_starts_with_concat("AND "@, reg_text(dr));
            lemma_starts_with_extend("AND "@ + reg_text(dr), "AND "@, ", "@);
            lemma_starts_with_extend("AND "@ + reg_text(dr) + ", "@, "AND "@, reg_text(sr1));
            lemma_starts_with_extend(
                "AND "@ + reg_text(dr) + ", "@ + reg_text(sr1),
                "AND "@,
                second_operand_text(sr2, imm5),
            );
        },
        Command::Branch { condition, offset } => {
            lemma_starts_with_concat("BR"@, condition_text(condition));
            lemma_starts_with_extend("BR"@ + condition_text(condition), "BR"@, " "@);
            lemma_starts_with_extend(
                "BR"@ + condition_text(condition) + " "@,
                "BR"@,
                signed_decimal(offset as int),
            );
        },
        Command::Jump { base_r } => {
            lemma_starts_with_concat("JMP "@, reg_text(base_r));
        },
        Command::JumpSubroutine { offset, base_r } => {
            let rest = match offset {
                Some(o) => " "@ + signed_decimal(o as int),
                None => match base_r {
                    Some(b) => "R "@ + reg_text(b),
                    None => Seq::empty(),
                },
            };
            lemma_starts_with_concat("JSR"@, rest);
            if offset is None && base_r is Some {
                let b = base_r->0;
                assert("JSR"@ + ("R "@ + reg_text(b)) =~= "JSRR "@ + reg_text(b));
                lemma_starts_with_concat("JSRR "@, reg_text(b));
            }
        },
        Command::Load { dr, offset } => {
            lemma_starts_with_concat("LD "@, reg_text(dr));
            lemma_starts_with_extend("LD "@ + reg_text(dr), "LD "@, ", "@);
            lemma_starts_with_extend("LD "@ + reg_text(dr) + ", "@, "LD "@, signed_decimal(offset as int));
        },
        Command::LoadIndirect { dr, offset } => {
            lemma_starts_with_concat("LDI "@, reg_text(dr));
            lemma_starts_with_extend("LDI "@ + reg_text(dr), "LDI "@, ", "@);
            lemma_starts_with_extend("LDI "@ + reg_text(dr) + ", "@, "LDI "@, signed_decimal(offset as int));
        },
        Command::LoadRegister { dr, base_r, offset } => {
            lemma_starts_with_concat("LDR "@, reg_text(dr));
            lemma_starts_with_extend("LDR "@ + reg_text(dr), "LDR "@, ", "@);
            lemma_starts_with_extend("LDR "@ + reg_text(dr) + ", "@, "LDR "@, reg_text(base_r));
            lemma_starts_with_extend("LDR "@ + reg_text(dr) + ", "@ + reg_text(base_r), "LDR "@, ", "@);
            lemma_starts_with_extend(
                "LDR "@ + reg_text(dr) + ", "@ + reg_text(base_r) + ", "@,
                "LDR "@,
                signed_decimal(offset as int),
            );
        },
        Command::LoadEffectiveAddress { dr, offset } => {
            lemma_starts_with_concat("LEA "@, reg_text(dr));
            lemma_starts_with_extend("LEA "@ + reg_text(dr), "LEA "@, ", "@);
            lemma_starts_with_extend("LEA "@ + reg_text(dr) + ", "@, "LEA "@, signed_decimal(offset as int));
        },
        Command::Not { dr, sr } => {
            lemma_starts_with_concat("NOT "@, reg_text(dr));
            lemma_starts_with_extend("NOT "@ + reg_text(dr), "NOT "@, ", "@);
            lemma_starts_with_extend("NOT "@ + reg_text(dr) + ", "@, "NOT "@, reg_text(sr));
        },
        Command::Store { sr, offset } => {
            lemma_starts_with_concat("ST "@, reg_text(sr));
            lemma_starts_with_extend("ST "@ + reg_text(sr), "ST "@, ", "@);
            lemma_starts_with_extend("ST "@ + reg_text(sr) + ", "@, "ST "@, signed_decimal(offset as int));
        },
        Command::StoreIndirect { sr, offset } => {
            lemma_starts_with_concat("STI "@, reg_text(sr));
            lemma_starts_with_extend("STI "@ + reg_text(sr), "STI "@, ", "@);
            lemma_starts_with_extend("STI "@ + reg_text(sr) + ", "@, "STI "@, signed_decimal(offset as int));
        },
        Command::StoreRegister { sr, base_r, offset } => {
            lemma_starts_with_concat("STR "@, reg_text(sr));
            lemma_starts_with_extend("STR "@ + reg_text(sr), "STR "@, ", "@);
            lemma_starts_with_extend("STR "@ + reg_text(sr) + ", "@, "STR "@, reg_text(base_r));
            lemma_starts_with_extend("STR "@ + reg_text(sr) + ", "@ + reg_text(base_r), "STR "@, ", "@);
            lemma_starts_with_extend(
                "STR "@ + reg_text(sr) + ", "@ + reg_text(base_r) + ", "@,
                "STR "@,
                signed_decimal(offset as int),
            );
        },
        Command::Trap { vector } => {
            lemma_starts_with_concat("TRAP "@, vector.name());
        },
        _ => {},
    }
}

/// The names of the trap routines.
pub proof fn law_trap_vector_names()
    ensures
        TrapVector::GetC.name() == "GETC"@,
        TrapVector::Out.name() == "OUT"@,
        TrapVector::Puts.name() == "PUTS"@,
        TrapVector::In.name() == "IN"@,
        TrapVector::PutSp.name() == "PUTSP"@,
        TrapVector::Halt.name() == "HALT"@,
{
}

} // verus!
