use lc3_vm::memory::Memory;
use lc3_vm::register::Registers;
use lc3_vm::trapcode::handle_trap;

#[test]
fn test_trap_saves_pc_in_r7() {
    let mut memory = Memory::new();
    let mut registers = Registers::new();
    let mut out: Vec<u8> = Vec::new();
    registers.set_pc(0x3002);
    let running = handle_trap(0xF021, &mut memory, &mut registers, None, &mut out);
    assert!(running);
    assert_eq!(registers.get(7), 0x3002);
}

#[test]
fn test_trap_getc() {
    let mut memory = Memory::new();
    let mut registers = Registers::new();
    let mut out: Vec<u8> = Vec::new();
    let running = handle_trap(0xF020, &mut memory, &mut registers, Some(98), &mut out);
    assert!(running);
    assert_eq!(registers.get(0), 98);
    assert_eq!(out, Vec::<u8>::new()); // no echo
    assert_eq!(registers.get_cond_flag(), 1); // flag follows the R0 write
}

#[test]
fn test_trap_out() {
    let mut memory = Memory::new();
    let mut registers = Registers::new();
    let mut out: Vec<u8> = Vec::new();
    registers.set(0, 0x1241); // low byte is 'A'
    let running = handle_trap(0xF021, &mut memory, &mut registers, None, &mut out);
    assert!(running);
    assert_eq!(out, vec![b'A']);
}

#[test]
fn test_trap_in_prompts_and_echoes() {
    let mut memory = Memory::new();
    let mut registers = Registers::new();
    let mut out: Vec<u8> = Vec::new();
    let running = handle_trap(0xF023, &mut memory, &mut registers, Some(b'x'), &mut out);
    assert!(running);
    assert_eq!(registers.get(0), b'x' as u16);
    let mut expected: Vec<u8> = Vec::new();
    expected.extend(b"Enter a character: ");
    expected.push(b'x');
    assert_eq!(out, expected);
}

#[test]
fn test_trap_puts() {
    let mut memory = Memory::new();
    let mut registers = Registers::new();
    let mut out: Vec<u8> = Vec::new();
    memory.write(0x3100, b'H' as u16);
    memory.write(0x3101, b'i' as u16);
    memory.write(0x3102, 0);
    registers.set(0, 0x3100);
    let running = handle_trap(0xF022, &mut memory, &mut registers, None, &mut out);
    assert!(running);
    assert_eq!(out, b"Hi".to_vec());
}

#[test]
fn test_trap_puts_takes_low_byte() {
    // One character per word: only the low byte of each word is emitted.
    let mut memory = Memory::new();
    let mut registers = Registers::new();
    let mut out: Vec<u8> = Vec::new();
    memory.write(0x3100, 0xAB41); // low byte 'A'
    memory.write(0x3101, 0);
    registers.set(0, 0x3100);
    handle_trap(0xF022, &mut memory, &mut registers, None, &mut out);
    assert_eq!(out, vec![0x41]);
}

#[test]
fn test_trap_putsp_packed_pair() {
    let mut memory = Memory::new();
    let mut registers = Registers::new();
    let mut out: Vec<u8> = Vec::new();
    // "Hi" packed into one word: 'H' in the low byte, 'i' in the high byte.
    memory.write(0x3100, (b'H' as u16) | ((b'i' as u16) << 8));
    memory.write(0x3101, 0);
    registers.set(0, 0x3100);
    let running = handle_trap(0xF024, &mut memory, &mut registers, None, &mut out);
    assert!(running);
    assert_eq!(out, b"Hi".to_vec());
}

#[test]
fn test_trap_putsp_stops_at_zero_high_byte() {
    // "Hey": the last word holds 'y' low and zero high; the 'y' is still
    // emitted, then the string ends.
    let mut memory = Memory::new();
    let mut registers = Registers::new();
    let mut out: Vec<u8> = Vec::new();
    memory.write(0x3100, (b'H' as u16) | ((b'e' as u16) << 8));
    memory.write(0x3101, b'y' as u16);
    registers.set(0, 0x3100);
    handle_trap(0xF024, &mut memory, &mut registers, None, &mut out);
    assert_eq!(out, b"Hey".to_vec());
}

#[test]
fn test_trap_halt() {
    let mut memory = Memory::new();
    let mut registers = Registers::new();
    let mut out: Vec<u8> = Vec::new();
    let running = handle_trap(0xF025, &mut memory, &mut registers, None, &mut out);
    assert!(!running);
    assert_eq!(out, b"\r\nHALT\r\n".to_vec());
}

#[test]
fn test_trap_unknown_vector() {
    let mut memory = Memory::new();
    let mut registers = Registers::new();
    let mut out: Vec<u8> = Vec::new();
    let running = handle_trap(0xF0AB, &mut memory, &mut registers, None, &mut out);
    assert!(running); // unrecognized vectors are not fatal
    assert_eq!(out, b"TRAP 0xAB not implemented\r\n".to_vec());
}
