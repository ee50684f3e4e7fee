use rs_lc_3_vm::command::TrapVector;
use rs_lc_3_vm::enums;
use rs_lc_3_vm::mem::{Mem, MEM_SIZE};
use rs_lc_3_vm::memory::Memory;
use rs_lc_3_vm::regs::{Regs, REG_SIZE};
use rs_lc_3_vm::trap;
use rs_lc_3_vm::types::{Address, ConditionFlag, Register};
use rs_lc_3_vm::vm::StepOutcome;
use rs_lc_3_vm::{Vm, VmError};

/// An image starting at `origin` with the given words.
fn image(origin: u16, words: &[u16]) -> Vec<u8> {
    let mut bytes = vec![(origin >> 8) as u8, origin as u8];
    for w in words {
        bytes.push((w >> 8) as u8);
        bytes.push(*w as u8);
    }
    bytes
}

fn loaded(words: &[u16]) -> Vm {
    let mut vm = Vm::new();
    vm.load_image(&image(0x3000, words)).unwrap();
    vm
}

#[test]
fn memory_read_after_write() {
    let mut m = Memory::new();
    assert_eq!(m.read(Address(0x1234)).unwrap(), 0);
    m.write(Address(0x1234), 0xBEEF).unwrap();
    assert_eq!(m.read(Address(0x1234)).unwrap(), 0xBEEF);
    assert_eq!(m.read(Address(0x1235)).unwrap(), 0);
    m.write(Address(0xFFFF), 7).unwrap();
    assert_eq!(m.read(Memory::max_address()).unwrap(), 7);
    assert_eq!(Memory::SIZE, 65536);
}

#[test]
fn memory_load_image_big_endian() {
    let mut m = Memory::default();
    m.load_image(Address(0x3000), &[0x12, 0x34, 0xAB, 0xCD]).unwrap();
    assert_eq!(m.read(Address(0x3000)).unwrap(), 0x1234);
    assert_eq!(m.read(Address(0x3001)).unwrap(), 0xABCD);
    assert_eq!(m.read(Address(0x3002)).unwrap(), 0);
    assert_eq!(m.used_words(), 2);
}

#[test]
fn memory_load_image_errors() {
    let mut m = Memory::new();
    assert!(matches!(m.load_image(Address(0), &[1, 2, 3]), Err(VmError::ImageTooShort)));
    assert!(matches!(
        m.load_image(Address(0xFFFF), &[1, 2, 3, 4]),
        Err(VmError::StartAddressOutOfBounds(0xFFFF))
    ));
    assert_eq!(m.used_words(), 0);
    // The last word of memory can still be filled.
    m.load_image(Address(0xFFFF), &[1, 2]).unwrap();
    assert_eq!(m.read(Address(0xFFFF)).unwrap(), 0x0102);
    // An empty image loads nothing.
    m.load_image(Address(5), &[]).unwrap();
    assert_eq!(m.used_words(), 1);
}

#[test]
fn memory_read_range() {
    let mut m = Memory::new();
    m.write(Address(10), 1).unwrap();
    m.write(Address(11), 2).unwrap();
    assert_eq!(m.read_range(Address(10), 3).unwrap(), &[1, 2, 0]);
    assert_eq!(m.read_range(Address(0xFFFF), 1).unwrap(), &[0]);
    assert!(matches!(m.read_range(Address(0xFFFF), 2), Err(VmError::MemoryOutOfBounds(1))));
    assert!(matches!(m.read_range(Address(0), 0x10005), Err(VmError::MemoryOutOfBounds(5))));
}

#[test]
fn new_vm_state() {
    let vm = Vm::default();
    assert_eq!(vm.program_counter(), Address(0x3000));
    assert_eq!(vm.condition_flag(), ConditionFlag::Zero);
    assert!(!vm.is_running());
    for r in Register::all() {
        assert_eq!(vm.register(r), 0);
    }
    assert_eq!(vm.memory().used_words(), 0);
}

#[test]
fn vm_load_image_sets_pc() {
    let mut vm = Vm::new();
    vm.load_image(&[0x40, 0x00, 0x12, 0x34]).unwrap();
    assert_eq!(vm.program_counter(), Address(0x4000));
    assert_eq!(vm.memory().read(Address(0x4000)).unwrap(), 0x1234);
}

#[test]
fn vm_load_image_errors() {
    let mut vm = Vm::new();
    assert!(matches!(vm.load_image(&[0x40]), Err(VmError::ImageTooShort)));
    assert_eq!(vm.program_counter(), Address(0x3000));
    // The program counter moves even when the body of the image is refused.
    assert!(matches!(vm.load_image(&[0x50, 0x00, 0x01]), Err(VmError::ImageTooShort)));
    assert_eq!(vm.program_counter(), Address(0x5000));
    assert!(matches!(
        vm.load_image(&[0xFF, 0xFF, 0, 1, 0, 2]),
        Err(VmError::StartAddressOutOfBounds(0xFFFF))
    ));
    assert_eq!(vm.program_counter(), Address(0xFFFF));
    assert_eq!(vm.memory().used_words(), 0);
}

#[test]
fn add_and_flags() {
    // ADD R1, R1, #1 ; ADD R2, R1, R1 ; AND R3, R2, #0 ; NOT R4, R3
    let mut vm = loaded(&[0x1261, 0x1441, 0x56A0, 0x98FF]);
    assert_eq!(vm.execute_instruction().unwrap(), StepOutcome::Executed);
    assert_eq!(vm.register(Register::R1), 1);
    assert_eq!(vm.condition_flag(), ConditionFlag::Positive);
    assert_eq!(vm.program_counter(), Address(0x3001));
    vm.execute_instruction().unwrap();
    assert_eq!(vm.register(Register::R2), 2);
    vm.execute_instruction().unwrap();
    assert_eq!(vm.register(Register::R3), 0);
    assert_eq!(vm.condition_flag(), ConditionFlag::Zero);
    vm.execute_instruction().unwrap();
    assert_eq!(vm.register(Register::R4), 0xFFFF);
    assert_eq!(vm.condition_flag(), ConditionFlag::Negative);
    assert_eq!(vm.program_counter(), Address(0x3004));
}

#[test]
fn add_wraps_around() {
    // NOT R0, R0 ; ADD R0, R0, #1
    let mut vm = loaded(&[0x903F, 0x1021]);
    vm.execute_instruction().unwrap();
    vm.execute_instruction().unwrap();
    assert_eq!(vm.register(Register::R0), 0);
    assert_eq!(vm.condition_flag(), ConditionFlag::Zero);
}

#[test]
fn not_twice_restores() {
    // ADD R1, R1, #5 ; NOT R1, R1 ; NOT R1, R1
    let mut vm = loaded(&[0x1265, 0x927F, 0x927F]);
    vm.execute_instruction().unwrap();
    vm.execute_instruction().unwrap();
    assert_eq!(vm.register(Register::R1), !5u16);
    vm.execute_instruction().unwrap();
    assert_eq!(vm.register(Register::R1), 5);
}

#[test]
fn loads_and_stores() {
    // 0x3000 LD R0, 2     -> reads 0x3003
    // 0x3001 LDI R1, 2    -> pointer at 0x3004
    // 0x3002 LEA R2, 1    -> 0x3004
    // 0x3003 data 0x0042
    // 0x3004 data 0x3005
    // 0x3005 data 0x8001
    let mut vm = loaded(&[0x2002, 0xA202, 0xE401, 0x0042, 0x3005, 0x8001]);
    vm.execute_instruction().unwrap();
    assert_eq!(vm.register(Register::R0), 0x0042);
    vm.execute_instruction().unwrap();
    assert_eq!(vm.register(Register::R1), 0x8001);
    assert_eq!(vm.condition_flag(), ConditionFlag::Negative);
    vm.execute_instruction().unwrap();
    assert_eq!(vm.register(Register::R2), 0x3004);
}

#[test]
fn ld_is_relative_to_the_next_instruction() {
    // LD R0, #1 ; 7 ; 9
    let mut vm = Vm::new();
    vm.load_image(&[0x30, 0x00, 0x20, 0x01, 0x00, 0x07, 0x00, 0x09]).unwrap();
    assert_eq!(vm.execute_instruction().unwrap(), StepOutcome::Executed);
    assert_eq!(vm.register(Register::R0), 9);
    assert_eq!(vm.condition_flag(), ConditionFlag::Positive);
    assert_eq!(vm.program_counter(), Address(0x3001));
}

#[test]
fn add_immediate_is_sign_extended() {
    // ADD R0, R0, #-1
    let mut vm = loaded(&[0x103F]);
    vm.execute_instruction().unwrap();
    assert_eq!(vm.register(Register::R0), 0xFFFF);
    assert_eq!(vm.condition_flag(), ConditionFlag::Negative);
}

#[test]
fn store_then_load_register() {
    // LEA R1, 10 ; ADD R0, R0, #9 ; STR R0, R1, #1 ; LDR R3, R1, #1 ; ST R0, 5 ; STI R0, 5
    let mut vm = loaded(&[0xE20A, 0x1029, 0x7041, 0x6641, 0x3005, 0xB005]);
    for _ in 0..4 {
        assert_eq!(vm.execute_instruction().unwrap(), StepOutcome::Executed);
    }
    assert_eq!(vm.register(Register::R1), 0x300B);
    assert_eq!(vm.memory().read(Address(0x300C)).unwrap(), 9);
    assert_eq!(vm.register(Register::R3), 9);
    vm.execute_instruction().unwrap();
    // ST at 0x3004 writes 0x3005 + 5.
    assert_eq!(vm.memory().read(Address(0x300A)).unwrap(), 9);
    vm.execute_instruction().unwrap();
    // STI at 0x3005 reads the pointer at 0x3006 + 5 = 0x300B (zero) and writes there.
    assert_eq!(vm.memory().read(Address(0x0000)).unwrap(), 9);
}

#[test]
fn branches_and_jumps_take_effect() {
    let mut vm = Vm::new();
    vm.load_image(&image(
        0x3000,
        &[
            0x0402, // 0x3000 BRz 2    -> 0x3003
            0x0000, // 0x3001
            0x0000, // 0x3002
            0x4803, // 0x3003 JSR 3    -> R7 = 0x3004, 0x3007
            0x03FF, // 0x3004 BRp -1   (not taken)
            0x41C0, // 0x3005 JSRR R7  -> 0x3004, R7 = 0x3006
            0x0000, // 0x3006
            0xC1C0, // 0x3007 JMP R7   -> 0x3004
        ],
    ))
    .unwrap();
    vm.execute_instruction().unwrap();
    assert_eq!(vm.program_counter(), Address(0x3003));
    vm.execute_instruction().unwrap();
    assert_eq!(vm.register(Register::R7), 0x3004);
    assert_eq!(vm.program_counter(), Address(0x3007));
    vm.execute_instruction().unwrap();
    assert_eq!(vm.program_counter(), Address(0x3004));
    vm.execute_instruction().unwrap();
    assert_eq!(vm.program_counter(), Address(0x3005));
    vm.execute_instruction().unwrap();
    assert_eq!(vm.program_counter(), Address(0x3004));
    assert_eq!(vm.register(Register::R7), 0x3006);
}

#[test]
fn jsr_links_the_next_instruction() {
    // JSR #1
    let mut vm = Vm::new();
    vm.load_image(&[0x30, 0x00, 0x48, 0x01]).unwrap();
    assert_eq!(vm.execute_instruction().unwrap(), StepOutcome::Executed);
    assert_eq!(vm.register(Register::R7), 0x3001);
    assert_eq!(vm.program_counter(), Address(0x3002));
}

#[test]
fn rti_stops_and_reserved_fails() {
    let mut vm = loaded(&[0x8000, 0xD000]);
    vm.start();
    assert!(vm.is_running());
    vm.execute_instruction().unwrap();
    assert!(!vm.is_running());
    assert_eq!(vm.program_counter(), Address(0x3001));
    assert!(matches!(vm.execute_instruction(), Err(VmError::InvalidInstruction(0xD000))));
    assert_eq!(vm.program_counter(), Address(0x3001));
}

#[test]
fn bad_trap_vector_fails() {
    let mut vm = loaded(&[0xF0FF]);
    assert!(matches!(vm.execute_instruction(), Err(VmError::InvalidTrapVector(0xFF))));
    assert_eq!(vm.program_counter(), Address(0x3000));
    assert_eq!(vm.register(Register::R7), 0);
}

#[test]
fn trap_steps_leave_the_routine_to_the_caller() {
    // TRAP GETC ; TRAP OUT ; TRAP HALT
    let mut vm = loaded(&[0xF020, 0xF021, 0xF025]);
    assert_eq!(vm.execute_instruction().unwrap(), StepOutcome::Trap(TrapVector::GetC));
    assert_eq!(vm.program_counter(), Address(0x3001));
    assert_eq!(vm.register(Register::R7), 0x3001);
    vm.trap_getc(b'x');
    assert_eq!(vm.register(Register::R0), b'x' as u16);
    assert_eq!(vm.execute_instruction().unwrap(), StepOutcome::Trap(TrapVector::Out));
    assert_eq!(vm.register(Register::R7), 0x3002);
    assert_eq!(vm.trap_out(), b'x');
    vm.start();
    assert_eq!(vm.execute_instruction().unwrap(), StepOutcome::Trap(TrapVector::Halt));
    vm.trap_halt();
    assert!(!vm.is_running());
    assert_eq!(vm.program_counter(), Address(0x3003));
}

#[test]
fn trap_in_stores_input() {
    let mut vm = Vm::new();
    vm.trap_in(b'Q');
    assert_eq!(vm.register(Register::R0), b'Q' as u16);
}

#[test]
fn trap_out_uses_low_byte() {
    // LD R0, 0 ; data 0x0141
    let mut vm = loaded(&[0x2000, 0x0141]);
    vm.execute_instruction().unwrap();
    assert_eq!(vm.trap_out(), 0x41);
}

#[test]
fn trap_puts_and_putsp() {
    // LEA R0, 1 ; (unused) ; "Hi" as words ; 0
    let mut vm = loaded(&[0xE001, 0x0000, 0x0048, 0x0169, 0x0000]);
    vm.execute_instruction().unwrap();
    assert_eq!(vm.register(Register::R0), 0x3002);
    assert_eq!(vm.trap_puts(), (vec![0x48, 0x69], true));
    assert_eq!(vm.trap_putsp(), (vec![0x48, 0x00, 0x69, 0x01], true));
}

#[test]
fn trap_puts_empty_string() {
    let vm = Vm::new();
    assert_eq!(vm.trap_puts(), (vec![], true));
    assert_eq!(vm.trap_putsp(), (vec![], true));
}

#[test]
fn trap_puts_wraps_past_the_last_address() {
    let mut vm = Vm::new();
    // Two non-zero words at the very end of memory, one more at address zero.
    vm.load_image(&[0xFF, 0xFE, 0x00, 0x41, 0x42, 0x43]).unwrap();
    vm.load_image(&[0x00, 0x00, 0x00, 0x44]).unwrap();
    // LD R0, 0 ; data 0xFFFE
    vm.load_image(&image(0x3000, &[0x2000, 0xFFFE])).unwrap();
    vm.execute_instruction().unwrap();
    assert_eq!(vm.register(Register::R0), 0xFFFE);
    assert_eq!(vm.trap_puts(), (vec![0x41, 0x43, 0x44], true));
    assert_eq!(vm.trap_putsp(), (vec![0x41, 0x00, 0x43, 0x42, 0x44, 0x00], true));
}

#[test]
fn mem_get_and_set() {
    let mut m = Mem::new();
    assert_eq!(m.get_mem(0xFFFF), 0);
    m.set_mem(0xFFFF, 3);
    m.set_mem(0, 4);
    assert_eq!(m.get_mem(0xFFFF), 3);
    assert_eq!(m.get_mem(0), 4);
    assert_eq!(MEM_SIZE, 65536);
}

#[test]
fn regs_get_and_set() {
    let mut r = Regs::new();
    for i in 0..REG_SIZE {
        assert_eq!(r.get_by_num(i), 0);
    }
    r.set_by_num(9, 0x1234);
    assert_eq!(r.get_by_num(9), 0x1234);
    assert_eq!(r.get_by_num(8), 0);
}

#[test]
fn trap_numbers() {
    assert!(matches!(trap::Trap::get_by_num(0x20), trap::Trap::TrapGetc));
    assert!(matches!(trap::Trap::get_by_num(0x21), trap::Trap::TrapOut));
    assert!(matches!(trap::Trap::get_by_num(0x22), trap::Trap::TrapPuts));
    assert!(matches!(trap::Trap::get_by_num(0x23), trap::Trap::TrapIn));
    assert!(matches!(trap::Trap::get_by_num(0x24), trap::Trap::TrapPutsp));
    assert!(matches!(trap::Trap::get_by_num(0x25), trap::Trap::TrapHalt));
}

#[test]
fn enum_trap_numbers() {
    assert!(matches!(enums::Trap::get_by_num(0x20), enums::Trap::TrapGetc));
    assert!(matches!(enums::Trap::get_by_num(0x21), enums::Trap::TrapOut));
    assert!(matches!(enums::Trap::get_by_num(0x22), enums::Trap::TrapPuts));
    assert!(matches!(enums::Trap::get_by_num(0x23), enums::Trap::TrapIn));
    assert!(matches!(enums::Trap::get_by_num(0x24), enums::Trap::TrapPutsp));
    assert!(matches!(enums::Trap::get_by_num(0x25), enums::Trap::TrapHalt));
}

#[test]
fn only_stores_write_memory() {
    // ADD R0, R0, #3 ; ST R0, 4 ; LD R1, 3
    let mut vm = loaded(&[0x1023, 0x3004, 0x2203]);
    vm.execute_instruction().unwrap();
    assert_eq!(vm.memory().used_words(), 3);
    let flag = vm.condition_flag();
    vm.execute_instruction().unwrap();
    assert_eq!(vm.memory().read(Address(0x3006)).unwrap(), 3);
    assert_eq!(vm.memory().used_words(), 4);
    assert_eq!(vm.register(Register::R0), 3);
    assert_eq!(vm.register(Register::R1), 0);
    assert_eq!(vm.condition_flag(), flag);
    vm.execute_instruction().unwrap();
    assert_eq!(vm.register(Register::R1), 3);
    assert_eq!(vm.memory().used_words(), 4);
}
