use vstd::prelude::*;
use crate::command::{Command, TrapVector, decode};
use crate::error::{Result, VmError};
use crate::memory::{Memory, be_word, image_words, overwrite, lemma_memory_len};
use crate::types::{Address, ConditionFlag, Register, flag_of, wrap16};

verus! {

/// The machine as the contracts see it.
pub struct MachineState {
    /// The eight general-purpose registers, `R0` first.
    pub registers: Seq<u16>,
    pub condition_flag: ConditionFlag,
    /// The 65,536 words of memory.
    pub memory: Seq<u16>,
    pub program_counter: u16,
    pub running: bool,
}

impl MachineState {
    /// The value of register `r`.
    pub open spec fn reg(self, r: Register) -> u16 {
        self.registers[r.num() as int]
    }

    /// The word at `address`.
    pub open spec fn word(self, address: u16) -> u16 {
        self.memory[address as int]
    }

    /// `value` written to `dr`, with the condition flag set from it.
    pub open spec fn set_result(self, dr: Register, value: u16) -> MachineState {
        MachineState {
            registers: self.registers.update(dr.num() as int, value),
            condition_flag: flag_of(value),
            ..self
        }
    }

    /// `value` written to register `r`, flags untouched.
    pub open spec fn set_reg(self, r: Register, value: u16) -> MachineState {
        MachineState { registers: self.registers.update(r.num() as int, value), ..self }
    }

    /// `value` stored at `address`.
    pub open spec fn store(self, address: u16, value: u16) -> MachineState {
        MachineState { memory: self.memory.update(address as int, value), ..self }
    }

    /// The program counter moved to `pc`.
    pub open spec fn set_pc(self, pc: u16) -> MachineState {
        MachineState { program_counter: pc, ..self }
    }

    /// The address `offset` words away from the program counter.
    pub open spec fn pc_relative(self, offset: i16) -> u16 {
        wrap16(self.program_counter + offset)
    }
}

/// The second operand of `ADD` and `AND`: the source register if there is one,
/// else the immediate; neither is an invalid instruction.
pub open spec fn second_operand(s: MachineState, sr2: Option<Register>, imm5: Option<u16>) -> Result<u16> {
    match sr2 {
        Some(r) => Ok(s.reg(r)),
        None => match imm5 {
            Some(v) => Ok(v),
            None => Err(VmError::InvalidInstruction(0)),
        },
    }
}

/// What executing `cmd` does to the machine once the program counter has moved past
/// the instruction: offsets are taken from that incremented program counter, and
/// `JSR`/`JSRR` link it in `R7`. Traps and the reserved opcode are not covered here:
/// they are handled on their own.
#[verifier::opaque]
pub open spec fn execute_spec(s: MachineState, cmd: Command) -> Result<MachineState> {
    match cmd {
        Command::Add { dr, sr1, sr2, imm5 } => match second_operand(s, sr2, imm5) {
            Ok(v) => Ok(s.set_result(dr, wrap16(s.reg(sr1) + v))),
            Err(e) => Err(e),
        },
        Command::And { dr, sr1, sr2, imm5 } => match second_operand(s, sr2, imm5) {
            Ok(v) => Ok(s.set_result(dr, s.reg(sr1) & v)),
            Err(e) => Err(e),
        },
        Command::Branch { condition, offset } => if condition & s.condition_flag.mask() != 0 {
            Ok(s.set_pc(s.pc_relative(offset)))
        } else {
            Ok(s)
        },
        Command::Jump { base_r } => Ok(s.set_pc(s.reg(base_r))),
        Command::JumpSubroutine { offset, base_r } => {
            let linked = s.set_reg(Register::R7, s.program_counter);
            match offset {
                Some(o) => Ok(linked.set_pc(s.pc_relative(o))),
                None => match base_r {
                    Some(b) => Ok(linked.set_pc(s.reg(b))),
                    None => Ok(linked),
                },
            }
        },
        Command::Load { dr, offset } => Ok(s.set_result(dr, s.word(s.pc_relative(offset)))),
        Command::LoadIndirect { dr, offset } => Ok(
            s.set_result(dr, s.word(s.word(s.pc_relative(offset)))),
        ),
        Command::LoadRegister { dr, base_r, offset } => Ok(
            s.set_result(dr, s.word(wrap16(s.reg(base_r) + offset))),
        ),
        Command::LoadEffectiveAddress { dr, offset } => Ok(s.set_result(dr, s.pc_relative(offset))),
        Command::Not { dr, sr } => Ok(s.set_result(dr, (0xFFFF - s.reg(sr)) as u16)),
        Command::ReturnFromInterrupt => Ok(MachineState { running: false, ..s }),
        Command::Store { sr, offset } => Ok(s.store(s.pc_relative(offset), s.reg(sr))),
        Command::StoreIndirect { sr, offset } => Ok(
            s.store(s.word(s.pc_relative(offset)), s.reg(sr)),
        ),
        Command::StoreRegister { sr, base_r, offset } => Ok(
            s.store(wrap16(s.reg(base_r) + offset), s.reg(sr)),
        ),
        Command::Trap { .. } => Ok(s),
        Command::Reserved => Ok(s),
    }
}

/// What one step asks of the caller once it has succeeded.
#[derive(Debug, Clone, Copy, PartialEq)]
pub enum StepOutcome {
    /// The instruction has been executed and the program counter has moved on.
    Executed,
    /// A `TRAP` instruction: the return address is in `R7` and the program counter has
    /// moved on; the caller runs the routine.
    Trap(TrapVector),
}

/// One step of the machine: fetch the word at the program counter, move the program
/// counter past it, decode the word, and execute it; a branch, jump or subroutine call
/// then sets the program counter to its target. A `TRAP` links the incremented program
/// counter in `R7` and is handed to the caller, which runs the routine. On an error the
/// machine is left as it was.
pub open spec fn step_spec(s: MachineState) -> Result<(StepOutcome, MachineState)> {
    let instruction = s.word(s.program_counter);
    let advanced = s.set_pc(wrap16(s.program_counter + 1));
    match decode(instruction) {
        Err(e) => Err(e),
        Ok(Command::Trap { vector }) => Ok(
            (StepOutcome::Trap(vector), advanced.set_reg(Register::R7, advanced.program_counter)),
        ),
        Ok(Command::Reserved) => Err(VmError::InvalidInstruction(instruction)),
        Ok(cmd) => match execute_spec(advanced, cmd) {
            Ok(s2) => Ok((StepOutcome::Executed, s2)),
            Err(e) => Err(e),
        },
    }
}

/// Low byte of a word.
pub open spec fn low_byte(w: u16) -> u8 {
    (w % 0x100) as u8
}

/// High byte of a word.
pub open spec fn high_byte(w: u16) -> u8 {
    (w / 0x100) as u8
}

/// How a word splits into its bytes.
proof fn lemma_word_bytes(w: u16)
    by (bit_vector)
    ensures
        w as u8 == (w % 0x100) as u8,
        (w >> 8) as u8 == (w / 0x100) as u8,
{
}

/// The word `k` places after `start`, wrapping from the last address to address zero.
pub open spec fn word_after(mem: Seq<u16>, start: int, k: int) -> u16 {
    mem[(start + k) % 0x10000]
}

/// The `n` words from `start` on, wrapping from the last address to address zero.
pub open spec fn words_from(mem: Seq<u16>, start: int, n: int) -> Seq<u16> {
    Seq::new(n as nat, |k: int| word_after(mem, start, k))
}

/// The word `n` places after `start` is zero, and none before it is.
pub open spec fn terminates_after(mem: Seq<u16>, start: int, n: int) -> bool {
    &&& 0 <= n < 0x10000
    &&& word_after(mem, start, n) == 0
    &&& forall|k: int| 0 <= k < n ==> #[trigger] word_after(mem, start, k) != 0
}

/// The low byte of each word.
pub open spec fn word_chars(words: Seq<u16>) -> Seq<u8> {
    words.map_values(|w: u16| low_byte(w))
}

/// Both bytes of each word, low byte first.
pub open spec fn packed_chars(words: Seq<u16>) -> Seq<u8> {
    Seq::new(
        2 * words.len(),
        |j: int| if j % 2 == 0 { low_byte(words[j / 2]) } else { high_byte(words[j / 2]) },
    )
}

/// What a string routine reads from `start` on, wrapping past the last address: the
/// words before the first zero word, `true` when there is one; otherwise, when no word
/// of memory is zero, all 65,536 words and `false`.
pub open spec fn string_words(mem: Seq<u16>, start: int, words: Seq<u16>, terminated: bool) -> bool {
    if terminated {
        exists|n: int| terminates_after(mem, start, n) && words == words_from(mem, start, n)
    } else {
        &&& forall|k: int| 0 <= k < 0x10000 ==> #[trigger] word_after(mem, start, k) != 0
        &&& words == words_from(mem, start, 0x10000)
    }
}

/// What a string routine read, stated word by word.
proof fn lemma_string_words_raw(mem: Seq<u16>, start: int, words: Seq<u16>, terminated: bool)
    requires
        mem.len() == 0x10000,
        string_words(mem, start, words, terminated),
    ensures
        terminated ==> words.len() < 0x10000 && mem[(start + words.len()) % 0x10000] == 0,
        !terminated ==> words.len() == 0x10000,
        forall|k: int|
            0 <= k < words.len() ==> #[trigger] words[k] == mem[(start + k) % 0x10000] && words[k]
                != 0,
{
    if terminated {
        let n = choose|n: int| terminates_after(mem, start, n) && words == words_from(mem, start, n);
        assert forall|k: int| 0 <= k < words.len() implies #[trigger] words[k] == mem[(start + k)
            % 0x10000] && words[k] != 0 by {
            assert(word_after(mem, start, k) != 0);
        }
    } else {
        assert forall|k: int| 0 <= k < words.len() implies #[trigger] words[k] == mem[(start + k)
            % 0x10000] && words[k] != 0 by {
            assert(word_after(mem, start, k) != 0);
        }
    }
}

/// The characters of `PUTS`, stated word by word.
proof fn lemma_puts_chars(mem: Seq<u16>, start: int, words: Seq<u16>, terminated: bool, out: Seq<u8>)
    requires
        mem.len() == 0x10000,
        string_words(mem, start, words, terminated),
        out == word_chars(words),
    ensures
        terminated ==> out.len() < 0x10000 && mem[(start + out.len()) % 0x10000] == 0,
        !terminated ==> out.len() == 0x10000,
        forall|k: int| 0 <= k < out.len() ==> #[trigger] word_after(mem, start, k) != 0,
        forall|k: int|
            #![trigger out[k]]
            0 <= k < out.len() ==> out[k] as int == mem[(start + k) % 0x10000] % 0x100,
{
    lemma_string_words_raw(mem, start, words, terminated);
    assert forall|k: int| 0 <= k < out.len() implies #[trigger] word_after(mem, start, k) != 0 by {
        assert(words[k] == mem[(start + k) % 0x10000]);
    }
    assert forall|k: int|
        #![trigger out[k]]
        0 <= k < out.len() implies out[k] as int == mem[(start + k) % 0x10000] % 0x100 by {
        assert(out[k] == low_byte(words[k]));
        assert(words[k] == mem[(start + k) % 0x10000]);
    }
}

/// The characters of `PUTSP`, stated word by word.
proof fn lemma_putsp_chars(mem: Seq<u16>, start: int, words: Seq<u16>, terminated: bool, out: Seq<u8>)
    requires
        mem.len() == 0x10000,
        string_words(mem, start, words, terminated),
        out == packed_chars(words),
    ensures
        out.len() % 2 == 0,
        terminated ==> out.len() / 2 < 0x10000 && mem[(start + out.len() / 2) % 0x10000] == 0,
        !terminated ==> out.len() / 2 == 0x10000,
        forall|k: int| 0 <= k < out.len() / 2 ==> #[trigger] word_after(mem, start, k) != 0,
        forall|j: int|
            #![trigger out[j]]
            0 <= j < out.len() ==> out[j] as int == if j % 2 == 0 {
                mem[(start + j / 2) % 0x10000] % 0x100
            } else {
                mem[(start + j / 2) % 0x10000] / 0x100
            },
{
    lemma_string_words_raw(mem, start, words, terminated);
    assert(out.len() / 2 == words.len());
    assert forall|k: int| 0 <= k < out.len() / 2 implies #[trigger] word_after(mem, start, k)
        != 0 by {
        assert(words[k] == mem[(start + k) % 0x10000]);
    }
    assert forall|j: int|
        #![trigger out[j]]
        0 <= j < out.len() implies out[j] as int == if j % 2 == 0 {
            mem[(start + j / 2) % 0x10000] % 0x100
        } else {
            mem[(start + j / 2) % 0x10000] / 0x100
        } by {
        let k = j / 2;
        assert(words[k] == mem[(start + k) % 0x10000]);
        if j % 2 == 0 {
            assert(out[j] == low_byte(words[k]));
        } else {
            assert(out[j] == high_byte(words[k]));
        }
    }
}

/// LC-3 virtual machine.
pub struct Vm {
    registers: [u16; 8],
    condition_flag: ConditionFlag,
    memory: Memory,
    program_counter: Address,
    running: bool,
}

impl View for Vm {
    type V = MachineState;

    closed spec fn view(&self) -> MachineState {
        MachineState {
            registers: self.registers@,
            condition_flag: self.condition_flag,
            memory: self.memory@,
            program_counter: self.program_counter.0,
            running: self.running,
        }
    }
}

/// Every machine has eight registers and 65,536 words of memory.
pub broadcast proof fn lemma_vm_shape(vm: &Vm)
    ensures
        #[trigger] vm@.registers.len() == 8,
        vm@.memory.len() == 0x10000,
{
    lemma_memory_len(&vm.memory);
}

impl Vm {
    /// A stopped machine with zeroed registers and memory, the zero flag set, and
    /// the program counter at `0x3000`.
    pub fn new() -> (r: Self)
        ensures
            r@ == (MachineState {
                registers: Seq::new(8, |i: int| 0u16),
                condition_flag: ConditionFlag::Zero,
                memory: Seq::new(0x10000, |i: int| 0u16),
                program_counter: 0x3000,
                running: false,
            }),
    {
        let r = Vm {
            registers: [0; 8],
            condition_flag: ConditionFlag::Zero,
            memory: Memory::new(),
            program_counter: Address(0x3000),
            running: false,
        };
        assert(r.registers@ =~= Seq::new(8, |i: int| 0u16));
        r
    }

    fn update_condition_flag(&mut self, value: u16)
        ensures
            final(self)@ == (MachineState { condition_flag: flag_of(value), ..old(self)@ }),
    {
        self.condition_flag = ConditionFlag::from_value(value);
    }

    fn execute_add(&mut self, dr: Register, sr1: Register, sr2: Option<Register>, imm5: Option<u16>) -> (r: Result<()>)
        ensures
            match execute_spec(old(self)@, Command::Add { dr, sr1, sr2, imm5 }) {
                Ok(s) => r == Ok::<(), VmError>(()) && final(self)@ == s,
                Err(e) => r == Err::<(), VmError>(e) && final(self)@ == old(self)@,
            },
    {
        reveal(execute_spec);
        let value1 = self.registers[sr1.index()];
        let value2 = if let Some(sr2) = sr2 {
            self.registers[sr2.index()]
        } else if let Some(imm5) = imm5 {
            imm5
        } else {
            return Err(VmError::InvalidInstruction(0));
        };
        let result = value1.wrapping_add(value2);
        self.registers[dr.index()] = result;
        self.update_condition_flag(result);
        Ok(())
    }

    fn execute_and(&mut self, dr: Register, sr1: Register, sr2: Option<Register>, imm5: Option<u16>) -> (r: Result<()>)
        ensures
            match execute_spec(old(self)@, Command::And { dr, sr1, sr2, imm5 }) {
                Ok(s) => r == Ok::<(), VmError>(()) && final(self)@ == s,
                Err(e) => r == Err::<(), VmError>(e) && final(self)@ == old(self)@,
            },
    {
        reveal(execute_spec);
        let value1 = self.registers[sr1.index()];
        let value2 = if let Some(sr2) = sr2 {
            self.registers[sr2.index()]
        } else if let Some(imm5) = imm5 {
            imm5
        } else {
            return Err(VmError::InvalidInstruction(0));
        };
        let result = value1 & value2;
        self.registers[dr.index()] = result;
        self.update_condition_flag(result);
        Ok(())
    }

    fn execute_branch(&mut self, condition: u16, offset: i16) -> (r: Result<()>)
        ensures
            r == Ok::<(), VmError>(()),
            Ok::<MachineState, VmError>(final(self)@) == execute_spec(
                old(self)@,
                Command::Branch { condition, offset },
            ),
    {
        reveal(execute_spec);
        if condition & self.condition_flag.bits() != 0 {
            self.program_counter = self.program_counter.offset(offset);
        }
        Ok(())
    }

    fn execute_jump(&mut self, base_r: Register) -> (r: Result<()>)
        ensures
            r == Ok::<(), VmError>(()),
            Ok::<MachineState, VmError>(final(self)@) == execute_spec(old(self)@, Command::Jump { base_r }),
    {
        reveal(execute_spec);
        self.program_counter = Address(self.registers[base_r.index()]);
        Ok(())
    }

    fn execute_jump_subroutine(&mut self, offset: Option<i16>, base_r: Option<Register>) -> (r: Result<()>)
        ensures
            r == Ok::<(), VmError>(()),
            Ok::<MachineState, VmError>(final(self)@) == execute_spec(
                old(self)@,
                Command::JumpSubroutine { offset, base_r },
            ),
    {
        reveal(execute_spec);
        let return_address = self.program_counter;
        if let Some(offset) = offset {
            self.program_counter = self.program_counter.offset(offset);
        } else if let Some(base_r) = base_r {
            self.program_counter = Address(self.registers[base_r.index()]);
        }
        self.registers[Register::R7.index()] = return_address.0;
        Ok(())
    }

    fn execute_load(&mut self, dr: Register, offset: i16) -> (r: Result<()>)
        ensures
            r == Ok::<(), VmError>(()),
            Ok::<MachineState, VmError>(final(self)@) == execute_spec(old(self)@, Command::Load { dr, offset }),
    {
        reveal(execute_spec);
        let address = self.program_counter.offset(offset);
        let value = self.memory.read(address)?;
        self.registers[dr.index()] = value;
        self.update_condition_flag(value);
        Ok(())
    }

    fn execute_load_indirect(&mut self, dr: Register, offset: i16) -> (r: Result<()>)
        ensures
            r == Ok::<(), VmError>(()),
            Ok::<MachineState, VmError>(final(self)@) == execute_spec(
                old(self)@,
                Command::LoadIndirect { dr, offset },
            ),
    {
        reveal(execute_spec);
        let address_ptr = self.program_counter.offset(offset);
        let address = Address(self.memory.read(address_ptr)?);
        let value = self.memory.read(address)?;
        self.registers[dr.index()] = value;
        self.update_condition_flag(value);
        Ok(())
    }

    fn execute_load_register(&mut self, dr: Register, base_r: Register, offset: i16) -> (r: Result<()>)
        ensures
            r == Ok::<(), VmError>(()),
            Ok::<MachineState, VmError>(final(self)@) == execute_spec(
                old(self)@,
                Command::LoadRegister { dr, base_r, offset },
            ),
    {
        reveal(execute_spec);
        let base_address = self.registers[base_r.index()];
        let address = Address(base_address).offset(offset);
        let value = self.memory.read(address)?;
        self.registers[dr.index()] = value;
        self.update_condition_flag(value);
        Ok(())
    }

    fn execute_load_effective_address(&mut self, dr: Register, offset: i16) -> (r: Result<()>)
        ensures
            r == Ok::<(), VmError>(()),
            Ok::<MachineState, VmError>(final(self)@) == execute_spec(
                old(self)@,
                Command::LoadEffectiveAddress { dr, offset },
            ),
    {
        reveal(execute_spec);
        let address = self.program_counter.offset(offset);
        self.registers[dr.index()] = address.0;
        self.update_condition_flag(address.0);
        Ok(())
    }

    fn execute_not(&mut self, dr: Register, sr: Register) -> (r: Result<()>)
        ensures
            r == Ok::<(), VmError>(()),
            Ok::<MachineState, VmError>(final(self)@) == execute_spec(old(self)@, Command::Not { dr, sr }),
    {
        reveal(execute_spec);
        let source = self.registers[sr.index()];
        let value = !source;
        assert(!source == (0xFFFF - source) as u16) by (bit_vector);
        self.registers[dr.index()] = value;
        self.update_condition_flag(value);
        Ok(())
    }

    fn execute_return_from_interrupt(&mut self) -> (r: Result<()>)
        ensures
            r == Ok::<(), VmError>(()),
            Ok::<MachineState, VmError>(final(self)@) == execute_spec(
                old(self)@,
                Command::ReturnFromInterrupt,
            ),
    {
        reveal(execute_spec);
        self.running = false;
        Ok(())
    }

    fn execute_store(&mut self, sr: Register, offset: i16) -> (r: Result<()>)
        ensures
            r == Ok::<(), VmError>(()),
            Ok::<MachineState, VmError>(final(self)@) == execute_spec(old(self)@, Command::Store { sr, offset }),
    {
        reveal(execute_spec);
        let address = self.program_counter.offset(offset);
        let value = self.registers[sr.index()];
        self.memory.write(address, value)?;
        Ok(())
    }

    fn execute_store_indirect(&mut self, sr: Register, offset: i16) -> (r: Result<()>)
        ensures
            r == Ok::<(), VmError>(()),
            Ok::<MachineState, VmError>(final(self)@) == execute_spec(
                old(self)@,
                Command::StoreIndirect { sr, offset },
            ),
    {
        reveal(execute_spec);
        let address_ptr = self.program_counter.offset(offset);
        let address = Address(self.memory.read(address_ptr)?);
        let value = self.registers[sr.index()];
        self.memory.write(address, value)?;
        Ok(())
    }

    fn execute_store_register(&mut self, sr: Register, base_r: Register, offset: i16) -> (r: Result<()>)
        ensures
            r == Ok::<(), VmError>(()),
            Ok::<MachineState, VmError>(final(self)@) == execute_spec(
                old(self)@,
                Command::StoreRegister { sr, base_r, offset },
            ),
    {
        reveal(execute_spec);
        let base_address = self.registers[base_r.index()];
        let address = Address(base_address).offset(offset);
        let value = self.registers[sr.index()];
        self.memory.write(address, value)?;
        Ok(())
    }

    /// Executes the instruction at the program counter (see [`step_spec`]).
    pub fn execute_instruction(&mut self) -> (r: Result<StepOutcome>)
        ensures
            match step_spec(old(self)@) {
                Ok((outcome, s)) => r == Ok::<StepOutcome, VmError>(outcome) && final(self)@ == s,
                Err(e) => r == Err::<StepOutcome, VmError>(e) && final(self)@ == old(self)@,
            },
    {
        let instruction = self.memory.read(self.program_counter)?;
        let current_pc = self.program_counter;
        let next_pc = Address(self.program_counter.0.wrapping_add(1));
        let command = Command::parse(instruction)?;
        // Offsets are taken from the incremented program counter; an instruction that
        // moves the program counter overwrites it.
        self.program_counter = next_pc;
        let result = match command {
            Command::Add { dr, sr1, sr2, imm5 } => self.execute_add(dr, sr1, sr2, imm5),
            Command::And { dr, sr1, sr2, imm5 } => self.execute_and(dr, sr1, sr2, imm5),
            Command::Branch { condition, offset } => self.execute_branch(condition, offset),
            Command::Jump { base_r } => self.execute_jump(base_r),
            Command::JumpSubroutine { offset, base_r } => self.execute_jump_subroutine(offset, base_r),
            Command::Load { dr, offset } => self.execute_load(dr, offset),
            Command::LoadIndirect { dr, offset } => self.execute_load_indirect(dr, offset),
            Command::LoadRegister { dr, base_r, offset } => self.execute_load_register(dr, base_r, offset),
            Command::LoadEffectiveAddress { dr, offset } => self.execute_load_effective_address(dr, offset),
            Command::Not { dr, sr } => self.execute_not(dr, sr),
            Command::ReturnFromInterrupt => self.execute_return_from_interrupt(),
            Command::Store { sr, offset } => self.execute_store(sr, offset),
            Command::StoreIndirect { sr, offset } => self.execute_store_indirect(sr, offset),
            Command::StoreRegister { sr, base_r, offset } => self.execute_store_register(sr, base_r, offset),
            Command::Trap { vector } => {
                self.registers[Register::R7.index()] = next_pc.0;
                return Ok(StepOutcome::Trap(vector));
            },
            Command::Reserved => Err(VmError::InvalidInstruction(instruction)),
        };
        match result {
            Ok(()) => Ok(StepOutcome::Executed),
            Err(e) => {
                self.program_counter = current_pc;
                Err(e)
            },
        }
    }

    /// `GETC`: stores the character read from the keyboard in `R0`.
    pub fn trap_getc(&mut self, input: u8)
        ensures
            final(self)@ == old(self)@.set_reg(Register::R0, input as u16),
    {
        self.registers[Register::R0.index()] = input as u16;
    }

    /// `OUT`: the character to write, the low byte of `R0`.
    pub fn trap_out(&self) -> (c: u8)
        ensures
            c == low_byte(self@.reg(Register::R0)),
            c as int == self@.registers[0] % 0x100,
    {
        let value = self.registers[Register::R0.index()];
        proof {
            lemma_word_bytes(value);
        }
        value as u8
    }

    /// `PUTS`: the characters to write, one per word (its low byte), from the address in
    /// `R0` up to the first zero word, wrapping past the last address. The flag is
    /// `false` when no word of memory is zero: the string then never ends.
    pub fn trap_puts(&self) -> (r: (Vec<u8>, bool))
        ensures
            exists|words: Seq<u16>|
                string_words(self@.memory, self@.reg(Register::R0) as int, words, r.1)
                    && r.0@ == word_chars(words),
            r.1 ==> r.0@.len() < 0x10000 && self@.memory[(self@.registers[0] + r.0@.len())
                % 0x10000] == 0,
            !r.1 ==> r.0@.len() == 0x10000,
            forall|k: int|
                0 <= k < r.0@.len() ==> #[trigger] word_after(
                    self@.memory,
                    self@.registers[0] as int,
                    k,
                ) != 0,
            forall|k: int|
                #![trigger r.0@[k]]
                0 <= k < r.0@.len() ==> r.0@[k] as int == self@.memory[(self@.registers[0] + k)
                    % 0x10000] % 0x100,
    {
        let start = self.registers[Register::R0.index()];
        let (words, terminated) = self.string_from(start);
        let mut out: Vec<u8> = Vec::new();
        let mut i: usize = 0;
        while i < words.len()
            invariant
                i <= words.len(),
                out@ == word_chars(words@.take(i as int)),
            decreases words.len() - i,
        {
            proof {
                lemma_word_bytes(words@[i as int]);
            }
            out.push(words[i] as u8);
            assert(word_chars(words@.take(i + 1)) =~= word_chars(words@.take(i as int)).push(
                (words@[i as int] % 0x100) as u8,
            ));
            i = i + 1;
        }
        assert(words@.take(words.len() as int) =~= words@);
        proof {
            lemma_vm_shape(self);
            lemma_puts_chars(self@.memory, start as int, words@, terminated, out@);
        }
        (out, terminated)
    }

    /// `IN`: stores the character read from the keyboard, after the prompt, in `R0`.
    pub fn trap_in(&mut self, input: u8)
        ensures
            final(self)@ == old(self)@.set_reg(Register::R0, input as u16),
    {
        self.registers[Register::R0.index()] = input as u16;
    }

    /// `PUTSP`: the characters to write, two per word (low byte, then high byte), from the
    /// address in `R0` up to the first zero word; the flag as for [`Vm::trap_puts`].
    pub fn trap_putsp(&self) -> (r: (Vec<u8>, bool))
        ensures
            exists|words: Seq<u16>|
                string_words(self@.memory, self@.reg(Register::R0) as int, words, r.1)
                    && r.0@ == packed_chars(words),
            r.0@.len() % 2 == 0,
            r.1 ==> r.0@.len() / 2 < 0x10000 && self@.memory[(self@.registers[0] + r.0@.len() / 2)
                % 0x10000] == 0,
            !r.1 ==> r.0@.len() / 2 == 0x10000,
            forall|k: int|
                0 <= k < r.0@.len() / 2 ==> #[trigger] word_after(
                    self@.memory,
                    self@.registers[0] as int,
                    k,
                ) != 0,
            forall|j: int|
                #![trigger r.0@[j]]
                0 <= j < r.0@.len() ==> r.0@[j] as int == if j % 2 == 0 {
                    self@.memory[(self@.registers[0] + j / 2) % 0x10000] % 0x100
                } else {
                    self@.memory[(self@.registers[0] + j / 2) % 0x10000] / 0x100
                },
    {
        let start = self.registers[Register::R0.index()];
        let (words, terminated) = self.string_from(start);
        let mut out: Vec<u8> = Vec::new();
        let mut i: usize = 0;
        while i < words.len()
            invariant
                i <= words.len(),
                out@ == packed_chars(words@.take(i as int)),
            decreases words.len() - i,
        {
            let c = words[i];
            proof {
                lemma_word_bytes(c);
            }
            out.push(c as u8);
            out.push((c >> 8) as u8);
            assert(packed_chars(words@.take(i + 1)) =~= packed_chars(words@.take(i as int)).push(
                (c % 0x100) as u8,
            ).push((c / 0x100) as u8));
            i = i + 1;
        }
        assert(words@.take(words.len() as int) =~= words@);
        proof {
            lemma_vm_shape(self);
            lemma_putsp_chars(self@.memory, start as int, words@, terminated, out@);
        }
        (out, terminated)
    }

    /// `HALT`: stops the machine.
    pub fn trap_halt(&mut self)
        ensures
            final(self)@ == (MachineState { running: false, ..old(self)@ }),
    {
        self.running = false;
    }

    /// The words from `start` up to the first zero word, wrapping past the last
    /// address, and whether a zero word was found before every word had been read.
    fn string_from(&self, start: u16) -> (r: (Vec<u16>, bool))
        ensures
            string_words(self@.memory, start as int, r.0@, r.1),
    {
        proof {
            lemma_memory_len(&self.memory);
        }
        let mut words: Vec<u16> = Vec::new();
        let mut n: u32 = 0;
        while n < 0x10000
            invariant
                n <= 0x10000,
                self@.memory.len() == 0x10000,
                words@ == words_from(self@.memory, start as int, n as int),
                forall|k: int| 0 <= k < n ==> #[trigger] word_after(self@.memory, start as int, k) != 0,
            decreases 0x10000 - n,
        {
            let address = start.wrapping_add(n as u16);
            assert(address == (start + n) % 0x10000);
            let c = match self.memory.read(Address(address)) {
                Ok(c) => c,
                Err(_) => return (words, false),
            };
            if c == 0 {
                assert(terminates_after(self@.memory, start as int, n as int));
                return (words, true);
            }
            words.push(c);
            n = n + 1;
            assert(words@ =~= words_from(self@.memory, start as int, n as int));
        }
        (words, false)
    }

    /// Loads a program image: the first two bytes give the start address (big-endian),
    /// which becomes the program counter; the rest is loaded there as by
    /// [`Memory::load_image`]. The program counter is set even when that load fails.
    pub fn load_image(&mut self, image_data: &[u8]) -> (r: Result<()>)
        ensures
            image_data@.len() < 2 ==> r == Err::<(), VmError>(VmError::ImageTooShort) && final(self)@
                == old(self)@,
            image_data@.len() >= 2 ==> {
                let start = be_word(image_data@[0], image_data@[1]);
                let rest = image_data@.subrange(2, image_data@.len() as int);
                let moved = old(self)@.set_pc(start);
                &&& final(self)@.program_counter as int == image_data@[0] * 0x100 + image_data@[1]
                &&& rest.len() % 2 != 0 ==> r == Err::<(), VmError>(VmError::ImageTooShort)
                    && final(self)@ == moved
                &&& rest.len() % 2 == 0 && start + rest.len() / 2 > 0x10000 ==> r == Err::<
                    (),
                    VmError,
                >(VmError::StartAddressOutOfBounds(start)) && final(self)@ == moved
                &&& rest.len() % 2 == 0 && start + rest.len() / 2 <= 0x10000 ==> r == Ok::<
                    (),
                    VmError,
                >(()) && final(self)@ == (MachineState {
                    memory: overwrite(old(self)@.memory, start as int, image_words(rest)),
                    ..moved
                })
            },
    {
        if image_data.len() < 2 {
            return Err(VmError::ImageTooShort);
        }
        let start_address = Address(crate::memory::word_from_be_bytes(image_data[0], image_data[1]));
        self.program_counter = start_address;
        let rest = vstd::slice::slice_subrange(image_data, 2, image_data.len());
        self.memory.load_image(start_address, rest)
    }

    /// Marks the machine as running.
    pub fn start(&mut self)
        ensures
            final(self)@ == (MachineState { running: true, ..old(self)@ }),
    {
        self.running = true;
    }

    /// Whether the machine is running.
    pub fn is_running(&self) -> (r: bool)
        ensures
            r == self@.running,
    {
        self.running
    }

    /// The program counter.
    pub fn program_counter(&self) -> (r: Address)
        ensures
            r.0 == self@.program_counter,
    {
        self.program_counter
    }

    /// The value of register `reg`.
    pub fn register(&self, reg: Register) -> (r: u16)
        ensures
            r == self@.reg(reg),
    {
        self.registers[reg.index()]
    }

    /// The condition flag.
    pub fn condition_flag(&self) -> (r: ConditionFlag)
        ensures
            r == self@.condition_flag,
    {
        self.condition_flag
    }

    /// The machine's memory.
    pub fn memory(&self) -> (r: &Memory)
        ensures
            r@ == self@.memory,
    {
        &self.memory
    }
}

impl Default for Vm {
    fn default() -> (r: Self)
        ensures
            r@ == (MachineState {
                registers: Seq::new(8, |i: int| 0u16),
                condition_flag: ConditionFlag::Zero,
                memory: Seq::new(0x10000, |i: int| 0u16),
                program_counter: 0x3000,
                running: false,
            }),
    {
        Self::new()
    }
}

} // verus!
