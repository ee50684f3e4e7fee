use vstd::prelude::*;
use crate::error::{Result, VmError};
use crate::types::{Register, register_of, wrap16};
use crate::text::{decimal, signed_decimal, push_decimal, push_signed_decimal};

verus! {

/// Trap routine selected by the low byte of a `TRAP` instruction.
#[derive(Debug, Clone, Copy, PartialEq)]
pub enum TrapVector {
    GetC,
    Out,
    Puts,
    In,
    PutSp,
    Halt,
}

/// The trap vector numbered `value`, if there is one.
pub open spec fn trap_vector_from(value: u8) -> Result<TrapVector> {
    if value == 0x20 {
        Ok(TrapVector::GetC)
    } else if value == 0x21 {
        Ok(TrapVector::Out)
    } else if value == 0x22 {
        Ok(TrapVector::Puts)
    } else if value == 0x23 {
        Ok(TrapVector::In)
    } else if value == 0x24 {
        Ok(TrapVector::PutSp)
    } else if value == 0x25 {
        Ok(TrapVector::Halt)
    } else {
        Err(VmError::InvalidTrapVector(value))
    }
}

impl TryFrom<u8> for TrapVector {
    type Error = VmError;

    fn try_from(value: u8) -> (r: Result<Self>) {
        match value {
            0x20 => Ok(TrapVector::GetC),
            0x21 => Ok(TrapVector::Out),
            0x22 => Ok(TrapVector::Puts),
            0x23 => Ok(TrapVector::In),
            0x24 => Ok(TrapVector::PutSp),
            0x25 => Ok(TrapVector::Halt),
            _ => Err(VmError::InvalidTrapVector(value)),
        }
    }
}

impl vstd::std_specs::convert::TryFromSpecImpl<u8> for TrapVector {
    open spec fn obeys_try_from_spec() -> bool {
        true
    }

    open spec fn try_from_spec(v: u8) -> Result<Self> {
        trap_vector_from(v)
    }
}

impl TrapVector {
    /// The routine's number in the low byte of a `TRAP` instruction.
    pub open spec fn code(self) -> u8 {
        match self {
            TrapVector::GetC => 0x20,
            TrapVector::Out => 0x21,
            TrapVector::Puts => 0x22,
            TrapVector::In => 0x23,
            TrapVector::PutSp => 0x24,
            TrapVector::Halt => 0x25,
        }
    }

    /// The routine's name.
    pub open spec fn name(self) -> Seq<char> {
        match self {
            TrapVector::GetC => "GETC"@,
            TrapVector::Out => "OUT"@,
            TrapVector::Puts => "PUTS"@,
            TrapVector::In => "IN"@,
            TrapVector::PutSp => "PUTSP"@,
            TrapVector::Halt => "HALT"@,
        }
    }

    /// The routine's name: `GETC`, `OUT`, `PUTS`, `IN`, `PUTSP` or `HALT`.
    pub fn to_string(&self) -> (r: String)
        ensures
            r@ == self.name(),
    {
        match self {
            TrapVector::GetC => String::from_str("GETC"),
            TrapVector::Out => String::from_str("OUT"),
            TrapVector::Puts => String::from_str("PUTS"),
            TrapVector::In => String::from_str("IN"),
            TrapVector::PutSp => String::from_str("PUTSP"),
            TrapVector::Halt => String::from_str("HALT"),
        }
    }
}

/// A register's name as written in assembly.
pub open spec fn reg_text(r: Register) -> Seq<char> {
    "R"@ + decimal(r.num())
}

/// The operands of `ADD` and `AND` after the first source: `, Rn`, `, #imm` or nothing.
pub open spec fn second_operand_text(sr2: Option<Register>, imm5: Option<u16>) -> Seq<char> {
    match sr2 {
        Some(r) => ", "@ + reg_text(r),
        None => match imm5 {
            Some(v) => ", #"@ + decimal(v as nat),
            None => Seq::empty(),
        },
    }
}

/// The condition letters of a branch: `n`, `z`, `p` for bits 2, 1, 0.
pub open spec fn condition_text(condition: u16) -> Seq<char> {
    (if condition & 0x4 != 0 { "n"@ } else { Seq::empty() }) + (if condition & 0x2 != 0 {
        "z"@
    } else {
        Seq::empty()
    }) + (if condition & 0x1 != 0 { "p"@ } else { Seq::empty() })
}

/// An instruction in assembly notation, offsets in signed decimal.
pub open spec fn command_text(c: Command) -> Seq<char> {
    match c {
        Command::Add { dr, sr1, sr2, imm5 } => "ADD "@ + reg_text(dr) + ", "@ + reg_text(sr1)
            + second_operand_text(sr2, imm5),
        Command::And { dr, sr1, sr2, imm5 } => "AND "@ + reg_text(dr) + ", "@ + reg_text(sr1)
            + second_operand_text(sr2, imm5),
        Command::Branch { condition, offset } => "BR"@ + condition_text(condition) + " "@
            + signed_decimal(offset as int),
        Command::Jump { base_r } => "JMP "@ + reg_text(base_r),
        Command::JumpSubroutine { offset, base_r } => "JSR"@ + match offset {
            Some(o) => " "@ + signed_decimal(o as int),
            None => match base_r {
                Some(b) => "R "@ + reg_text(b),
                None => Seq::empty(),
            },
        },
        Command::Load { dr, offset } => "LD "@ + reg_text(dr) + ", "@ + signed_decimal(offset as int),
        Command::LoadIndirect { dr, offset } => "LDI "@ + reg_text(dr) + ", "@ + signed_decimal(
            offset as int,
        ),
        Command::LoadRegister { dr, base_r, offset } => "LDR "@ + reg_text(dr) + ", "@ + reg_text(
            base_r,
        ) + ", "@ + signed_decimal(offset as int),
        Command::LoadEffectiveAddress { dr, offset } => "LEA "@ + reg_text(dr) + ", "@
            + signed_decimal(offset as int),
        Command::Not { dr, sr } => "NOT "@ + reg_text(dr) + ", "@ + reg_text(sr),
        Command::ReturnFromInterrupt => "RTI"@,
        Command::Store { sr, offset } => "ST "@ + reg_text(sr) + ", "@ + signed_decimal(offset as int),
        Command::StoreIndirect { sr, offset } => "STI "@ + reg_text(sr) + ", "@ + signed_decimal(
            offset as int,
        ),
        Command::StoreRegister { sr, base_r, offset } => "STR "@ + reg_text(sr) + ", "@ + reg_text(
            base_r,
        ) + ", "@ + signed_decimal(offset as int),
        Command::Trap { vector } => "TRAP "@ + vector.name(),
        Command::Reserved => "RES"@,
    }
}

fn push_register(out: &mut String, r: Register)
    ensures
        final(out)@ == old(out)@ + reg_text(r),
{
    out.append("R");
    push_decimal(out, r.index() as u32);
    assert(final(out)@ =~= old(out)@ + reg_text(r));
}

/// A decoded LC-3 instruction.
#[allow(inconsistent_fields)]
#[derive(Debug, Clone, Copy, PartialEq)]
pub enum Command {
    Add { dr: Register, sr1: Register, sr2: Option<Register>, imm5: Option<u16> },
    And { dr: Register, sr1: Register, sr2: Option<Register>, imm5: Option<u16> },
    Branch { condition: u16, offset: i16 },
    Jump { base_r: Register },
    JumpSubroutine { offset: Option<i16>, base_r: Option<Register> },
    Load { dr: Register, offset: i16 },
    LoadIndirect { dr: Register, offset: i16 },
    LoadRegister { dr: Register, base_r: Register, offset: i16 },
    LoadEffectiveAddress { dr: Register, offset: i16 },
    Not { dr: Register, sr: Register },
    ReturnFromInterrupt,
    Store { sr: Register, offset: i16 },
    StoreIndirect { sr: Register, offset: i16 },
    StoreRegister { sr: Register, base_r: Register, offset: i16 },
    Trap { vector: TrapVector },
    Reserved,
}

/// Bits 15..12 of an instruction: its opcode.
pub open spec fn opcode_of(i: u16) -> int {
    i as int / 0x1000
}

/// The register named by bits 11..9.
pub open spec fn reg_at_9(i: u16) -> Register {
    register_of((i as int / 0x200) % 8)
}

/// The register named by bits 8..6.
pub open spec fn reg_at_6(i: u16) -> Register {
    register_of((i as int / 0x40) % 8)
}

/// The register named by bits 2..0.
pub open spec fn reg_at_0(i: u16) -> Register {
    register_of(i as int % 8)
}

/// Bit 5: set for the immediate forms of `ADD` and `AND`.
pub open spec fn immediate_mode(i: u16) -> bool {
    (i as int / 0x20) % 2 == 1
}

/// The low bits of `i` below `size` (a power of two), read in two's complement.
pub open spec fn signed_low(i: u16, size: int) -> int {
    let v = i as int % size;
    if 2 * v >= size {
        v - size
    } else {
        v
    }
}

/// `ADD` or `AND` operands: destination, first source, and either a source
/// register or the 5-bit immediate, sign-extended to a word.
pub open spec fn arith_operands(i: u16) -> (Register, Register, Option<Register>, Option<u16>) {
    if immediate_mode(i) {
        (reg_at_9(i), reg_at_6(i), None, Some(wrap16(signed_low(i, 0x20))))
    } else {
        (reg_at_9(i), reg_at_6(i), Some(reg_at_0(i)), None)
    }
}

pub open spec fn decode_add(i: u16) -> Command {
    let (dr, sr1, sr2, imm5) = arith_operands(i);
    Command::Add { dr, sr1, sr2, imm5 }
}

pub open spec fn decode_and(i: u16) -> Command {
    let (dr, sr1, sr2, imm5) = arith_operands(i);
    Command::And { dr, sr1, sr2, imm5 }
}

pub open spec fn decode_branch(i: u16) -> Command {
    Command::Branch { condition: (i / 0x200) % 8, offset: signed_low(i, 0x200) as i16 }
}

pub open spec fn decode_jump(i: u16) -> Command {
    Command::Jump { base_r: reg_at_6(i) }
}

/// `JSR` when bit 11 is set (an 11-bit offset), `JSRR` otherwise (a base register).
pub open spec fn decode_jump_subroutine(i: u16) -> Command {
    if (i as int / 0x800) % 2 == 1 {
        Command::JumpSubroutine { offset: Some(signed_low(i, 0x800) as i16), base_r: None }
    } else {
        Command::JumpSubroutine { offset: None, base_r: Some(reg_at_6(i)) }
    }
}

pub open spec fn decode_load(i: u16) -> Command {
    Command::Load { dr: reg_at_9(i), offset: signed_low(i, 0x200) as i16 }
}

pub open spec fn decode_load_indirect(i: u16) -> Command {
    Command::LoadIndirect { dr: reg_at_9(i), offset: signed_low(i, 0x200) as i16 }
}

pub open spec fn decode_load_register(i: u16) -> Command {
    Command::LoadRegister { dr: reg_at_9(i), base_r: reg_at_6(i), offset: signed_low(i, 0x40) as i16 }
}

pub open spec fn decode_load_effective_address(i: u16) -> Command {
    Command::LoadEffectiveAddress { dr: reg_at_9(i), offset: signed_low(i, 0x200) as i16 }
}

pub open spec fn decode_not(i: u16) -> Command {
    Command::Not { dr: reg_at_9(i), sr: reg_at_6(i) }
}

pub open spec fn decode_store(i: u16) -> Command {
    Command::Store { sr: reg_at_9(i), offset: signed_low(i, 0x200) as i16 }
}

pub open spec fn decode_store_indirect(i: u16) -> Command {
    Command::StoreIndirect { sr: reg_at_9(i), offset: signed_low(i, 0x200) as i16 }
}

pub open spec fn decode_store_register(i: u16) -> Command {
    Command::StoreRegister { sr: reg_at_9(i), base_r: reg_at_6(i), offset: signed_low(i, 0x40) as i16 }
}

/// `TRAP` with the vector in bits 7..0; fails when no routine has that number.
pub open spec fn decode_trap(i: u16) -> Result<Command> {
    match trap_vector_from((i % 0x100) as u8) {
        Ok(vector) => Ok(Command::Trap { vector }),
        Err(e) => Err(e),
    }
}

/// What decoding an instruction gives, by its opcode.
pub open spec fn decode(i: u16) -> Result<Command> {
    let op = opcode_of(i);
    if op == 0x1 {
        Ok(decode_add(i))
    } else if op == 0x5 {
        Ok(decode_and(i))
    } else if op == 0x0 {
        Ok(decode_branch(i))
    } else if op == 0xC {
        Ok(decode_jump(i))
    } else if op == 0x4 {
        Ok(decode_jump_subroutine(i))
    } else if op == 0x2 {
        Ok(decode_load(i))
    } else if op == 0xA {
        Ok(decode_load_indirect(i))
    } else if op == 0x6 {
        Ok(decode_load_register(i))
    } else if op == 0xE {
        Ok(decode_load_effective_address(i))
    } else if op == 0x9 {
        Ok(decode_not(i))
    } else if op == 0x8 {
        Ok(Command::ReturnFromInterrupt)
    } else if op == 0x3 {
        Ok(decode_store(i))
    } else if op == 0xB {
        Ok(decode_store_indirect(i))
    } else if op == 0x7 {
        Ok(decode_store_register(i))
    } else if op == 0xF {
        decode_trap(i)
    } else {
        Ok(Command::Reserved)
    }
}

/// The bit-field facts that decoding rests on.
proof fn lemma_instruction_fields(i: u16)
    by (bit_vector)
    ensures
        i >> 12 == i / 0x1000,
        (i >> 9) & 0x7 == (i / 0x200) % 8,
        (i >> 6) & 0x7 == (i / 0x40) % 8,
        i & 0x7 == i % 8,
        (i & 0x20 != 0) == ((i / 0x20) % 2 == 1),
        (i & 0x800 != 0) == ((i / 0x800) % 2 == 1),
        i & 0x1F == i % 0x20,
        i & 0x1FF == i % 0x200,
        i & 0x7FF == i % 0x800,
        i & 0x3F == i % 0x40,
        i & 0xFF == i % 0x100,
        field_size(9) == 0x200,
        field_size(11) == 0x800,
        field_size(6) == 0x40,
        field_size(5) == 0x20,
{
}

/// `2^bit_count`, the number of values a field of `bit_count` bits can hold.
pub open spec fn field_size(bit_count: u32) -> u32 {
    1u32 << bit_count
}

/// The low `bit_count` bits of `x`.
pub open spec fn low_bits(x: u16, bit_count: u32) -> u32 {
    (x as u32) % field_size(bit_count)
}

impl Command {
    /// The instruction in assembly notation, such as `ADD R0, R1, #5` or `BRnz -3`.
    pub fn to_string(&self) -> (r: String)
        ensures
            r@ == command_text(*self),
    {
        let mut f = String::new();
        match self {
            Command::Add { dr, sr1, sr2, imm5 } => {
                f.append("ADD ");
                push_register(&mut f, *dr);
                f.append(", ");
                push_register(&mut f, *sr1);
                if let Some(sr2) = sr2 {
                    f.append(", ");
                    push_register(&mut f, *sr2);
                } else if let Some(imm5) = imm5 {
                    f.append(", #");
                    push_decimal(&mut f, *imm5 as u32);
                }
            },
            Command::And { dr, sr1, sr2, imm5 } => {
                f.append("AND ");
                push_register(&mut f, *dr);
                f.append(", ");
                push_register(&mut f, *sr1);
                if let Some(sr2) = sr2 {
                    f.append(", ");
                    push_register(&mut f, *sr2);
                } else if let Some(imm5) = imm5 {
                    f.append(", #");
                    push_decimal(&mut f, *imm5 as u32);
                }
            },
            Command::Branch { condition, offset } => {
                f.append("BR");
                if *condition & 0x4 != 0 {
                    f.append("n");
                }
                if *condition & 0x2 != 0 {
                    f.append("z");
                }
                if *condition & 0x1 != 0 {
                    f.append("p");
                }
                f.append(" ");
                push_signed_decimal(&mut f, *offset);
            },
            Command::Jump { base_r } => {
                f.append("JMP ");
                push_register(&mut f, *base_r);
            },
            Command::JumpSubroutine { offset, base_r } => {
                f.append("JSR");
                if let Some(offset) = offset {
                    f.append(" ");
                    push_signed_decimal(&mut f, *offset);
                } else if let Some(base_r) = base_r {
                    f.append("R ");
                    push_register(&mut f, *base_r);
                }
            },
            Command::Load { dr, offset } => {
                f.append("LD ");
                push_register(&mut f, *dr);
                f.append(", ");
                push_signed_decimal(&mut f, *offset);
            },
            Command::LoadIndirect { dr, offset } => {
                f.append("LDI ");
                push_register(&mut f, *dr);
                f.append(", ");
                push_signed_decimal(&mut f, *offset);
            },
            Command::LoadRegister { dr, base_r, offset } => {
                f.append("LDR ");
                push_register(&mut f, *dr);
                f.append(", ");
                push_register(&mut f, *base_r);
                f.append(", ");
                push_signed_decimal(&mut f, *offset);
            },
            Command::LoadEffectiveAddress { dr, offset } => {
                f.append("LEA ");
                push_register(&mut f, *dr);
                f.append(", ");
                push_signed_decimal(&mut f, *offset);
            },
            Command::Not { dr, sr } => {
                f.append("NOT ");
                push_register(&mut f, *dr);
                f.append(", ");
                push_register(&mut f, *sr);
            },
            Command::ReturnFromInterrupt => {
                f.append("RTI");
            },
            Command::Store { sr, offset } => {
                f.append("ST ");
                push_register(&mut f, *sr);
                f.append(", ");
                push_signed_decimal(&mut f, *offset);
            },
            Command::StoreIndirect { sr, offset } => {
                f.append("STI ");
                push_register(&mut f, *sr);
                f.append(", ");
                push_signed_decimal(&mut f, *offset);
            },
            Command::StoreRegister { sr, base_r, offset } => {
                f.append("STR ");
                push_register(&mut f, *sr);
                f.append(", ");
                push_register(&mut f, *base_r);
                f.append(", ");
                push_signed_decimal(&mut f, *offset);
            },
            Command::Trap { vector } => {
                f.append("TRAP ");
                let name = vector.to_string();
                f.append(name.as_str());
            },
            Command::Reserved => {
                f.append("RES");
            },
        }
        assert(f@ =~= command_text(*self));
        f
    }

    /// Decodes an instruction word.
    pub fn parse(instruction: u16) -> (r: Result<Self>)
        ensures
            r == decode(instruction),
    {
        let opcode = instruction >> 12;
        proof {
            lemma_instruction_fields(instruction);
        }
        match opcode {
            0x1 => Self::parse_add(instruction),
            0x5 => Self::parse_and(instruction),
            0x0 => Self::parse_branch(instruction),
            0xC => Self::parse_jump(instruction),
            0x4 => Self::parse_jump_subroutine(instruction),
            0x2 => Self::parse_load(instruction),
            0xA => Self::parse_load_indirect(instruction),
            0x6 => Self::parse_load_register(instruction),
            0xE => Self::parse_load_effective_address(instruction),
            0x9 => Self::parse_not(instruction),
            0x8 => Ok(Command::ReturnFromInterrupt),
            0x3 => Self::parse_store(instruction),
            0xB => Self::parse_store_indirect(instruction),
            0x7 => Self::parse_store_register(instruction),
            0xF => Self::parse_trap(instruction),
            _ => Ok(Command::Reserved),
        }
    }

    fn parse_add(instruction: u16) -> (r: Result<Self>)
        ensures
            r == Ok::<Command, VmError>(decode_add(instruction)),
    {
        proof {
            lemma_instruction_fields(instruction);
        }
        let dr = Register::try_from((instruction >> 9) & 0x7)?;
        let sr1 = Register::try_from((instruction >> 6) & 0x7)?;
        if instruction & 0x20 != 0 {
            let imm5 = word_of(sign_extend(instruction & 0x1F, 5));
            Ok(Command::Add { dr, sr1, sr2: None, imm5: Some(imm5) })
        } else {
            let sr2 = Register::try_from(instruction & 0x7)?;
            Ok(Command::Add { dr, sr1, sr2: Some(sr2), imm5: None })
        }
    }

    fn parse_and(instruction: u16) -> (r: Result<Self>)
        ensures
            r == Ok::<Command, VmError>(decode_and(instruction)),
    {
        proof {
            lemma_instruction_fields(instruction);
        }
        let dr = Register::try_from((instruction >> 9) & 0x7)?;
        let sr1 = Register::try_from((instruction >> 6) & 0x7)?;
        if instruction & 0x20 != 0 {
            let imm5 = word_of(sign_extend(instruction & 0x1F, 5));
            Ok(Command::And { dr, sr1, sr2: None, imm5: Some(imm5) })
        } else {
            let sr2 = Register::try_from(instruction & 0x7)?;
            Ok(Command::And { dr, sr1, sr2: Some(sr2), imm5: None })
        }
    }

    fn parse_branch(instruction: u16) -> (r: Result<Self>)
        ensures
            r == Ok::<Command, VmError>(decode_branch(instruction)),
    {
        proof {
            lemma_instruction_fields(instruction);
        }
        let condition = (instruction >> 9) & 0x7;
        let offset = sign_extend(instruction & 0x1FF, 9);
        Ok(Command::Branch { condition, offset })
    }

    fn parse_jump(instruction: u16) -> (r: Result<Self>)
        ensures
            r == Ok::<Command, VmError>(decode_jump(instruction)),
    {
        proof {
            lemma_instruction_fields(instruction);
        }
        let base_r = Register::try_from((instruction >> 6) & 0x7)?;
        Ok(Command::Jump { base_r })
    }

    fn parse_jump_subroutine(instruction: u16) -> (r: Result<Self>)
        ensures
            r == Ok::<Command, VmError>(decode_jump_subroutine(instruction)),
    {
        proof {
            lemma_instruction_fields(instruction);
        }
        if instruction & 0x0800 != 0 {
            let offset = sign_extend(instruction & 0x7FF, 11);
            Ok(Command::JumpSubroutine { offset: Some(offset), base_r: None })
        } else {
            let base_r = Register::try_from((instruction >> 6) & 0x7)?;
            Ok(Command::JumpSubroutine { offset: None, base_r: Some(base_r) })
        }
    }

    fn parse_load(instruction: u16) -> (r: Result<Self>)
        ensures
            r == Ok::<Command, VmError>(decode_load(instruction)),
    {
        proof {
            lemma_instruction_fields(instruction);
        }
        let dr = Register::try_from((instruction >> 9) & 0x7)?;
        let offset = sign_extend(instruction & 0x1FF, 9);
        Ok(Command::Load { dr, offset })
    }

    fn parse_load_indirect(instruction: u16) -> (r: Result<Self>)
        ensures
            r == Ok::<Command, VmError>(decode_load_indirect(instruction)),
    {
        proof {
            lemma_instruction_fields(instruction);
        }
        let dr = Register::try_from((instruction >> 9) & 0x7)?;
        let offset = sign_extend(instruction & 0x1FF, 9);
        Ok(Command::LoadIndirect { dr, offset })
    }

    fn parse_load_register(instruction: u16) -> (r: Result<Self>)
        ensures
            r == Ok::<Command, VmError>(decode_load_register(instruction)),
    {
        proof {
            lemma_instruction_fields(instruction);
        }
        let dr = Register::try_from((instruction >> 9) & 0x7)?;
        let base_r = Register::try_from((instruction >> 6) & 0x7)?;
        let offset = sign_extend(instruction & 0x3F, 6);
        Ok(Command::LoadRegister { dr, base_r, offset })
    }

    fn parse_load_effective_address(instruction: u16) -> (r: Result<Self>)
        ensures
            r == Ok::<Command, VmError>(decode_load_effective_address(instruction)),
    {
        proof {
            lemma_instruction_fields(instruction);
        }
        let dr = Register::try_from((instruction >> 9) & 0x7)?;
        let offset = sign_extend(instruction & 0x1FF, 9);
        Ok(Command::LoadEffectiveAddress { dr, offset })
    }

    fn parse_not(instruction: u16) -> (r: Result<Self>)
        ensures
            r == Ok::<Command, VmError>(decode_not(instruction)),
    {
        proof {
            lemma_instruction_fields(instruction);
        }
        let dr = Register::try_from((instruction >> 9) & 0x7)?;
        let sr = Register::try_from((instruction >> 6) & 0x7)?;
        Ok(Command::Not { dr, sr })
    }

    fn parse_store(instruction: u16) -> (r: Result<Self>)
        ensures
            r == Ok::<Command, VmError>(decode_store(instruction)),
    {
        proof {
            lemma_instruction_fields(instruction);
        }
        let sr = Register::try_from((instruction >> 9) & 0x7)?;
        let offset = sign_extend(instruction & 0x1FF, 9);
        Ok(Command::Store { sr, offset })
    }

    fn parse_store_indirect(instruction: u16) -> (r: Result<Self>)
        ensures
            r == Ok::<Command, VmError>(decode_store_indirect(instruction)),
    {
        proof {
            lemma_instruction_fields(instruction);
        }
        let sr = Register::try_from((instruction >> 9) & 0x7)?;
        let offset = sign_extend(instruction & 0x1FF, 9);
        Ok(Command::StoreIndirect { sr, offset })
    }

    fn parse_store_register(instruction: u16) -> (r: Result<Self>)
        ensures
            r == Ok::<Command, VmError>(decode_store_register(instruction)),
    {
        proof {
            lemma_instruction_fields(instruction);
        }
        let sr = Register::try_from((instruction >> 9) & 0x7)?;
        let base_r = Register::try_from((instruction >> 6) & 0x7)?;
        let offset = sign_extend(instruction & 0x3F, 6);
        Ok(Command::StoreRegister { sr, base_r, offset })
    }

    fn parse_trap(instruction: u16) -> (r: Result<Self>)
        ensures
            r == decode_trap(instruction),
    {
        proof {
            lemma_instruction_fields(instruction);
        }
        let vector = TrapVector::try_from((instruction & 0xFF) as u8)?;
        Ok(Command::Trap { vector })
    }
}

/// The 16-bit two's-complement word of `x`.
fn word_of(x: i16) -> (r: u16)
    ensures
        r == wrap16(x as int),
{
    assert((x as u16) as int == if x < 0 { x as int + 0x10000 } else { x as int }) by (bit_vector);
    x as u16
}

fn sign_extend(mut x: u16, bit_count: u32) -> (r: i16)
    requires
        1 <= bit_count <= 15,
    ensures
        2 * low_bits(x, bit_count) >= field_size(bit_count) ==> r as int == low_bits(x, bit_count)
            - field_size(bit_count),
        2 * low_bits(x, bit_count) < field_size(bit_count) ==> r == x as i16,
{
    let ghost x0 = x;
    if (x >> (bit_count - 1)) & 1 != 0 {
        x |= 0xFFFF << bit_count;
        assert(1 <= bit_count <= 15 && (x0 >> ((bit_count - 1) as u32)) & 1 != 0 ==> ((x0 | (
        0xFFFFu16 << bit_count)) as i16) as int == low_bits(x0, bit_count) - field_size(bit_count)
            && 2 * low_bits(x0, bit_count) >= field_size(bit_count)) by (bit_vector);
    } else {
        assert(1 <= bit_count <= 15 && (x0 >> ((bit_count - 1) as u32)) & 1 == 0 ==> 2 * low_bits(
            x0,
            bit_count,
        ) < field_size(bit_count)) by (bit_vector);
    }
    x as i16
}

} // verus!
