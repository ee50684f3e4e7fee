use rs_lc_3_vm::command::{Command, TrapVector};
use rs_lc_3_vm::types::{Address, ConditionFlag, Register};

#[test]
fn address_text() {
    assert_eq!(Address(0x3000).to_string(), "0x3000");
    assert_eq!(Address(0xABCD).to_string(), "0xABCD");
    assert_eq!(Address(0x0007).to_string(), "0x0007");
}

#[test]
fn register_and_flag_text() {
    assert_eq!(Register::R0.to_string(), "R0");
    assert_eq!(Register::R7.to_string(), "R7");
    assert_eq!(ConditionFlag::Positive.to_string(), "POS");
    assert_eq!(ConditionFlag::Zero.to_string(), "ZRO");
    assert_eq!(ConditionFlag::Negative.to_string(), "NEG");
}

#[test]
fn trap_vector_text() {
    assert_eq!(TrapVector::GetC.to_string(), "GETC");
    assert_eq!(TrapVector::Out.to_string(), "OUT");
    assert_eq!(TrapVector::Puts.to_string(), "PUTS");
    assert_eq!(TrapVector::In.to_string(), "IN");
    assert_eq!(TrapVector::PutSp.to_string(), "PUTSP");
    assert_eq!(TrapVector::Halt.to_string(), "HALT");
}

#[test]
fn command_text() {
    let text = |i: u16| Command::parse(i).unwrap().to_string();
    assert_eq!(text(0x1042), "ADD R0, R1, R2");
    assert_eq!(text(0x127F), "ADD R1, R1, #65535");
    assert_eq!(text(0x126F), "ADD R1, R1, #15");
    assert_eq!(text(0x5020), "AND R0, R0, #0");
    assert_eq!(text(0x0FFF), "BRnzp -1");
    assert_eq!(text(0x0A05), "BRnp 5");
    assert_eq!(text(0x0000), "BR 0");
    assert_eq!(text(0xC1C0), "JMP R7");
    assert_eq!(text(0x4FFE), "JSR -2");
    assert_eq!(text(0x4080), "JSRR R2");
    assert_eq!(text(0x2402), "LD R2, 2");
    assert_eq!(text(0xA7FF), "LDI R3, -1");
    assert_eq!(text(0x6A7F), "LDR R5, R1, -1");
    assert_eq!(text(0xE005), "LEA R0, 5");
    assert_eq!(text(0x947F), "NOT R2, R1");
    assert_eq!(text(0x8000), "RTI");
    assert_eq!(text(0x3E10), "ST R7, 16");
    assert_eq!(text(0xB300), "STI R1, -256");
    assert_eq!(text(0x7420), "STR R2, R0, -32");
    assert_eq!(text(0xF025), "TRAP HALT");
    assert_eq!(text(0xD000), "RES");
    assert_eq!(text(0x4C00), "JSR -1024");
}

#[test]
fn command_text_without_second_operand() {
    let c = Command::Add { dr: Register::R1, sr1: Register::R2, sr2: None, imm5: None };
    assert_eq!(c.to_string(), "ADD R1, R2");
    let j = Command::JumpSubroutine { offset: None, base_r: None };
    assert_eq!(j.to_string(), "JSR");
}
