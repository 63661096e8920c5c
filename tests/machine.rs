use chip8_core::decode::{decode, Instruction};
use chip8_core::error::MachineError;
use chip8_core::machine::{Flow, CPU};
use chip8_core::stack::CallStack;

fn load(cpu: &mut CPU, at: usize, words: &[u16]) {
    for (i, w) in words.iter().enumerate() {
        cpu.memory[at + 2 * i] = (w >> 8) as u8;
        cpu.memory[at + 2 * i + 1] = (w & 0xFF) as u8;
    }
}

#[test]
fn two_subroutine_calls_add_twice() {
    let mut cpu = CPU::init();
    cpu.registers[0] = 5;
    cpu.registers[1] = 10;
    load(&mut cpu, 0x000, &[0x2100, 0x2100, 0x0000]);
    load(&mut cpu, 0x100, &[0x8014, 0x8014, 0x00EE]);
    assert_eq!(cpu.run(), Ok(()));
    assert_eq!(cpu.registers[0], 45);
    assert_eq!(cpu.stack.depth(), 0);
    assert_eq!(cpu.position_in_memory, 6);
}

#[test]
fn three_chained_adds() {
    let mut cpu = CPU::init();
    cpu.registers[0] = 5;
    cpu.registers[1] = 10;
    cpu.registers[2] = 10;
    cpu.registers[3] = 10;
    load(&mut cpu, 0, &[0x8014, 0x8024, 0x8034, 0x0000]);
    assert_eq!(cpu.run(), Ok(()));
    assert_eq!(cpu.registers[0], 35);
    assert_eq!(cpu.registers[0xF], 0);
}

#[test]
fn init_is_zeroed() {
    let cpu = CPU::init();
    assert!(cpu.registers.iter().all(|&r| r == 0));
    assert!(cpu.memory.iter().all(|&b| b == 0));
    assert_eq!(cpu.position_in_memory, 0);
    assert_eq!(cpu.stack.depth(), 0);
}

#[test]
fn add_without_carry() {
    let mut cpu = CPU::init();
    cpu.registers[2] = 100;
    cpu.registers[3] = 155;
    cpu.registers[0xF] = 7;
    cpu.add_xy(2, 3);
    assert_eq!(cpu.registers[2], 255);
    assert_eq!(cpu.registers[3], 155);
    assert_eq!(cpu.registers[0xF], 0);
}

#[test]
fn add_with_carry_wraps() {
    let mut cpu = CPU::init();
    cpu.registers[0] = 200;
    cpu.registers[1] = 100;
    cpu.add_xy(0, 1);
    assert_eq!(cpu.registers[0], 44);
    assert_eq!(cpu.registers[0xF], 1);
}

#[test]
fn add_all_operand_pairs() {
    for a in 0..=255u16 {
        for b in 0..=255u16 {
            let mut cpu = CPU::init();
            cpu.registers[4] = a as u8;
            cpu.registers[9] = b as u8;
            cpu.add_xy(4, 9);
            assert_eq!(cpu.registers[4] as u16, (a + b) % 256);
            assert_eq!(cpu.registers[0xF], if a + b > 255 { 1 } else { 0 });
        }
    }
}

#[test]
fn add_register_to_itself_doubles() {
    let mut cpu = CPU::init();
    cpu.registers[6] = 130;
    cpu.add_xy(6, 6);
    assert_eq!(cpu.registers[6], 4);
    assert_eq!(cpu.registers[0xF], 1);
}

#[test]
fn add_into_flag_register_keeps_carry() {
    let mut cpu = CPU::init();
    cpu.registers[0xF] = 3;
    cpu.registers[1] = 4;
    cpu.add_xy(0xF, 1);
    assert_eq!(cpu.registers[0xF], 0);
}

#[test]
fn read_opecode_is_big_endian() {
    let mut cpu = CPU::init();
    cpu.memory[10] = 0x8A;
    cpu.memory[11] = 0xB4;
    cpu.position_in_memory = 10;
    assert_eq!(cpu.read_opecode(), Ok(0x8AB4));
    assert_eq!(cpu.position_in_memory, 10);
}

#[test]
fn read_opecode_at_last_byte_is_out_of_bounds() {
    let mut cpu = CPU::init();
    cpu.position_in_memory = 4094;
    assert_eq!(cpu.read_opecode(), Ok(0));
    cpu.position_in_memory = 4095;
    assert_eq!(cpu.read_opecode(), Err(MachineError::OutOfBoundsFetch));
}

#[test]
fn decode_recognized_patterns() {
    assert_eq!(decode(0x0000), Instruction::Halt);
    assert_eq!(decode(0x00EE), Instruction::Return);
    assert_eq!(decode(0x2ABC), Instruction::Call(0xABC));
    assert_eq!(decode(0x8F34), Instruction::AddXY(0xF, 0x3));
}

#[test]
fn decode_unrecognized_patterns() {
    for w in [0x0001u16, 0x00E0, 0x0EEE, 0x10EE, 0x8015, 0x9014, 0xFFFF, 0x1000] {
        assert_eq!(decode(w), Instruction::Unimplemented(w));
    }
}

#[test]
fn unimplemented_opcode_carries_word() {
    let mut cpu = CPU::init();
    load(&mut cpu, 0, &[0x8014, 0xA123, 0x0000]);
    assert_eq!(cpu.run(), Err(MachineError::UnimplementedOpcode(0xA123)));
    assert_eq!(cpu.position_in_memory, 4);
}

#[test]
fn halt_ignores_rest_of_memory() {
    let mut cpu = CPU::init();
    cpu.registers[1] = 9;
    load(&mut cpu, 0, &[0x0000, 0x8014, 0xFFFF]);
    assert_eq!(cpu.run(), Ok(()));
    assert_eq!(cpu.registers[0], 0);
    assert_eq!(cpu.position_in_memory, 2);
}

#[test]
fn step_reports_flow() {
    let mut cpu = CPU::init();
    load(&mut cpu, 0, &[0x8014, 0x0000]);
    assert_eq!(cpu.step(), Ok(Flow::Continue));
    assert_eq!(cpu.step(), Ok(Flow::Halt));
    assert_eq!(cpu.position_in_memory, 4);
}

#[test]
fn call_then_return_resumes_after_call() {
    let mut cpu = CPU::init();
    load(&mut cpu, 0x20, &[0x2300]);
    load(&mut cpu, 0x300, &[0x00EE]);
    cpu.position_in_memory = 0x20;
    assert_eq!(cpu.step(), Ok(Flow::Continue));
    assert_eq!(cpu.position_in_memory, 0x300);
    assert_eq!(cpu.stack.depth(), 1);
    assert_eq!(cpu.step(), Ok(Flow::Continue));
    assert_eq!(cpu.position_in_memory, 0x22);
    assert_eq!(cpu.stack.depth(), 0);
}

#[test]
fn sixteen_nested_calls_then_overflow() {
    let mut cpu = CPU::init();
    // Each call jumps to the next word, which is again a call.
    for i in 0..17usize {
        let target = (2 * (i + 1)) as u16;
        load(&mut cpu, 2 * i, &[0x2000 | target]);
    }
    for depth in 1..=16usize {
        assert_eq!(cpu.step(), Ok(Flow::Continue));
        assert_eq!(cpu.stack.depth(), depth);
    }
    assert_eq!(cpu.step(), Err(MachineError::StackOverflow));
    assert_eq!(cpu.stack.depth(), 16);
}

#[test]
fn recursive_call_overflows_in_run() {
    let mut cpu = CPU::init();
    load(&mut cpu, 0, &[0x2000]);
    assert_eq!(cpu.run(), Err(MachineError::StackOverflow));
    assert_eq!(cpu.stack.depth(), 16);
}

#[test]
fn return_on_empty_stack_underflows() {
    let mut cpu = CPU::init();
    load(&mut cpu, 0, &[0x00EE]);
    assert_eq!(cpu.run(), Err(MachineError::StackUnderflow));
    assert_eq!(cpu.ret(), Err(MachineError::StackUnderflow));
}

#[test]
fn run_off_the_end_is_out_of_bounds() {
    let mut cpu = CPU::init();
    cpu.registers[1] = 1;
    for at in (0..4096).step_by(2) {
        load(&mut cpu, at, &[0x8014]);
    }
    assert_eq!(cpu.run(), Err(MachineError::OutOfBoundsFetch));
    assert_eq!(cpu.position_in_memory, 4096);
    assert_eq!(cpu.registers[0], 0);
}

#[test]
fn call_and_ret_directly() {
    let mut cpu = CPU::init();
    cpu.position_in_memory = 0x40;
    assert_eq!(cpu.call(0x123), Ok(()));
    assert_eq!(cpu.position_in_memory, 0x123);
    assert_eq!(cpu.ret(), Ok(()));
    assert_eq!(cpu.position_in_memory, 0x40);
}

#[test]
fn call_stack_push_pop() {
    let mut s = CallStack::new();
    assert_eq!(s.pop(), Err(MachineError::StackUnderflow));
    for a in 0..16u16 {
        assert_eq!(s.push(a * 3), Ok(()));
    }
    assert_eq!(s.push(99), Err(MachineError::StackOverflow));
    assert_eq!(s.depth(), 16);
    assert_eq!(s.pop(), Ok(45));
    assert_eq!(s.pop(), Ok(42));
    assert_eq!(s.depth(), 14);
}
