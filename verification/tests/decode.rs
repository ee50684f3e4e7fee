use rs_lc_3_vm::command::{Command, TrapVector};
use rs_lc_3_vm::types::{Address, ConditionFlag, Register};
use rs_lc_3_vm::VmError;

#[test]
fn parse_add_register_mode() {
    let c = Command::parse(0x1042).unwrap();
    assert_eq!(
        c,
        Command::Add { dr: Register::R0, sr1: Register::R1, sr2: Some(Register::R2), imm5: None }
    );
}

#[test]
fn parse_add_immediate_is_sign_extended() {
    // ADD R1, R1, #-1
    let c = Command::parse(0x127F).unwrap();
    assert_eq!(
        c,
        Command::Add { dr: Register::R1, sr1: Register::R1, sr2: None, imm5: Some(0xFFFF) }
    );
    let d = Command::parse(0x126F).unwrap();
    assert_eq!(
        d,
        Command::Add { dr: Register::R1, sr1: Register::R1, sr2: None, imm5: Some(15) }
    );
}

#[test]
fn parse_and_both_modes() {
    assert_eq!(
        Command::parse(0x5020).unwrap(),
        Command::And { dr: Register::R0, sr1: Register::R0, sr2: None, imm5: Some(0) }
    );
    assert_eq!(
        Command::parse(0x5A87).unwrap(),
        Command::And { dr: Register::R5, sr1: Register::R2, sr2: Some(Register::R7), imm5: None }
    );
}

#[test]
fn parse_branch_negative_offset() {
    assert_eq!(Command::parse(0x0FFF).unwrap(), Command::Branch { condition: 7, offset: -1 });
    assert_eq!(Command::parse(0x0400).unwrap(), Command::Branch { condition: 2, offset: 0 });
    assert_eq!(Command::parse(0x0300).unwrap(), Command::Branch { condition: 1, offset: -256 });
    assert_eq!(Command::parse(0x02FF).unwrap(), Command::Branch { condition: 1, offset: 255 });
}

#[test]
fn parse_jumps() {
    assert_eq!(Command::parse(0xC1C0).unwrap(), Command::Jump { base_r: Register::R7 });
    assert_eq!(
        Command::parse(0x4FFE).unwrap(),
        Command::JumpSubroutine { offset: Some(-2), base_r: None }
    );
    assert_eq!(
        Command::parse(0x4C00).unwrap(),
        Command::JumpSubroutine { offset: Some(-1024), base_r: None }
    );
    assert_eq!(
        Command::parse(0x4080).unwrap(),
        Command::JumpSubroutine { offset: None, base_r: Some(Register::R2) }
    );
}

#[test]
fn parse_loads_and_stores() {
    assert_eq!(Command::parse(0x2402).unwrap(), Command::Load { dr: Register::R2, offset: 2 });
    assert_eq!(Command::parse(0xA7FF).unwrap(), Command::LoadIndirect { dr: Register::R3, offset: -1 });
    assert_eq!(
        Command::parse(0x6A7F).unwrap(),
        Command::LoadRegister { dr: Register::R5, base_r: Register::R1, offset: -1 }
    );
    assert_eq!(
        Command::parse(0xE005).unwrap(),
        Command::LoadEffectiveAddress { dr: Register::R0, offset: 5 }
    );
    assert_eq!(Command::parse(0x3E10).unwrap(), Command::Store { sr: Register::R7, offset: 16 });
    assert_eq!(Command::parse(0xB300).unwrap(), Command::StoreIndirect { sr: Register::R1, offset: -256 });
    assert_eq!(
        Command::parse(0x7420).unwrap(),
        Command::StoreRegister { sr: Register::R2, base_r: Register::R0, offset: -32 }
    );
}

#[test]
fn parse_not_rti_reserved() {
    assert_eq!(Command::parse(0x947F).unwrap(), Command::Not { dr: Register::R2, sr: Register::R1 });
    assert_eq!(Command::parse(0x8000).unwrap(), Command::ReturnFromInterrupt);
    assert_eq!(Command::parse(0xD123).unwrap(), Command::Reserved);
}

#[test]
fn parse_traps() {
    assert_eq!(Command::parse(0xF020).unwrap(), Command::Trap { vector: TrapVector::GetC });
    assert_eq!(Command::parse(0xF021).unwrap(), Command::Trap { vector: TrapVector::Out });
    assert_eq!(Command::parse(0xF022).unwrap(), Command::Trap { vector: TrapVector::Puts });
    assert_eq!(Command::parse(0xF023).unwrap(), Command::Trap { vector: TrapVector::In });
    assert_eq!(Command::parse(0xF024).unwrap(), Command::Trap { vector: TrapVector::PutSp });
    assert_eq!(Command::parse(0xF025).unwrap(), Command::Trap { vector: TrapVector::Halt });
}

#[test]
fn parse_unknown_trap_is_an_error() {
    assert!(matches!(Command::parse(0xF026), Err(VmError::InvalidTrapVector(0x26))));
    assert!(matches!(Command::parse(0xFF1F), Err(VmError::InvalidTrapVector(0x1F))));
}

#[test]
fn every_non_trap_word_decodes() {
    for i in 0..=0xFFFFu16 {
        let ok = Command::parse(i).is_ok();
        let bad_trap = (i >> 12) == 0xF && !(0x20..=0x25).contains(&(i & 0xFF));
        assert_eq!(ok, !bad_trap, "instruction {:#06x}", i);
    }
}

#[test]
fn trap_vector_conversion() {
    assert_eq!(TrapVector::try_from(0x20u8).unwrap(), TrapVector::GetC);
    assert_eq!(TrapVector::try_from(0x25u8).unwrap(), TrapVector::Halt);
    assert!(matches!(TrapVector::try_from(0x1Fu8), Err(VmError::InvalidTrapVector(0x1F))));
    assert!(matches!(TrapVector::try_from(0x26u8), Err(VmError::InvalidTrapVector(0x26))));
}

#[test]
fn register_conversion_round_trip() {
    for r in Register::all() {
        assert_eq!(Register::try_from(r.index() as u16).unwrap(), r);
    }
    assert_eq!(Register::try_from(5u16).unwrap(), Register::R5);
    assert!(matches!(Register::try_from(8u16), Err(VmError::InvalidRegister(8))));
    assert!(matches!(Register::try_from(0xFFFFu16), Err(VmError::InvalidRegister(0xFFFF))));
}

#[test]
fn register_all_in_order() {
    let all = Register::all();
    for (i, r) in all.iter().enumerate() {
        assert_eq!(r.index(), i);
    }
    assert_eq!(Register::COUNT, 8);
}

#[test]
fn address_offset_wraps() {
    assert_eq!(Address(5).offset(-7), Address(0xFFFE));
    assert_eq!(Address(0xFFFF).offset(1), Address(0));
    assert_eq!(Address(0x3000).offset(0x10), Address(0x3010));
    assert_eq!(Address(0x1234).offset(0), Address(0x1234));
    assert_eq!(Address(0x1234).offset(-300).offset(300), Address(0x1234));
    assert_eq!(Address(0x8000).usize(), 0x8000);
    assert_eq!(Address::max(), Address(0xFFFF));
    assert_eq!(Address::try_from(0x42u16).unwrap(), Address(0x42));
}

#[test]
fn condition_flag_from_value() {
    assert_eq!(ConditionFlag::from_value(0), ConditionFlag::Zero);
    assert_eq!(ConditionFlag::from_value(1), ConditionFlag::Positive);
    assert_eq!(ConditionFlag::from_value(0x7FFF), ConditionFlag::Positive);
    assert_eq!(ConditionFlag::from_value(0x8000), ConditionFlag::Negative);
    assert_eq!(ConditionFlag::from_value(0xFFFF), ConditionFlag::Negative);
    assert_eq!(ConditionFlag::Positive.bits(), 1);
    assert_eq!(ConditionFlag::Zero.bits(), 2);
    assert_eq!(ConditionFlag::Negative.bits(), 4);
}
