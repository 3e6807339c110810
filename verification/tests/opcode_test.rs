use lc3_vm::memory::Memory;
use lc3_vm::opcode;
use lc3_vm::opcode::OpCode;
use lc3_vm::register::Registers;
use lc3_vm::utils::sign_extend;

#[test]
fn test_add_instruction() {
    let mut registers = Registers::new();

    // Set initial values
    registers.set(1, 5); // R1 = 5

    let instructions = vec![
        0b0001010001100111, // ADD R2, R1, #7  ; R2 = R1 + 7 = 5 + 7 = 12
        0b0001011001000010, // ADD R3, R1, R2  ; R3 = R1 + R2 = 5 + 12 = 17
    ];

    for instr in instructions {
        opcode::handle_add(instr, &mut registers);
    }

    assert_eq!(registers.get(2), 12);
    assert_eq!(registers.get(3), 17);
}

#[test]
fn test_br_instruction() {
    let mut registers = Registers::new();

    registers.set_pc(0x3000);
    registers.set(0, 0); // This will set the ZRO flag

    let instructions = vec![
        0b0000010000000101, // BRz #5 ; Branch if zero (PC = 0x3000 + 5 = 0x3005)
    ];

    opcode::handle_br(instructions[0], &mut registers);
    assert_eq!(registers.get_pc(), 0x3005);

    // Reset PC and set Z flag
    registers.set_pc(0x3000);
    registers.update_flags(0); // This should set the Z flag since value is zero

    let instructions = vec![
        0b0000010000000101, // BRz #5 ; Branch if zero (PC = 0x3000 + 5 = 0x3005)
    ];

    opcode::handle_br(instructions[0], &mut registers);
    assert_eq!(registers.get_pc(), 0x3005);
}

#[test]
fn test_jmp_instruction() {
    let mut registers = Registers::new();

    registers.set(3, 0x4000);

    let instructions = vec![
        0b1100000011000000, // JMP R3 ; Jump to address in R3 (PC = 0x4000)
    ];

    opcode::handle_jmp(instructions[0], &mut registers);
    assert_eq!(registers.get_pc(), 0x4000);
}

#[test]
fn test_jsr_instruction() {
    let mut registers = Registers::new();

    registers.set_pc(0x3000);

    let instructions = vec![
        0b0100100000010100, // JSR #20 ; Jump to subroutine at offset 20, save PC in R7
    ];

    opcode::handle_jsr(instructions[0], &mut registers);
    assert_eq!(registers.get(7), 0x3000); // R7 should contain the original PC
    assert_eq!(registers.get_pc(), 0x3014); // PC should be 0x3000 + 20 = 0x3014

    // Test JSRR
    registers.set_pc(0x3000);
    registers.set(2, 0x4000);

    let instructions = vec![
        0b0100000010000000, // JSRR R2 ; Jump to subroutine at address in R2, save PC in R7
    ];

    opcode::handle_jsr(instructions[0], &mut registers);
    assert_eq!(registers.get(7), 0x3000); // R7 should contain the original PC
    assert_eq!(registers.get_pc(), 0x4000); // PC should be value from R2
}

#[test]
fn test_ld_and_st_instructions() {
    let mut memory = Memory::new();
    let mut registers = Registers::new();

    registers.set_pc(0x3000);
    memory.write(0x3005, 42); // Write value 42 at address 0x3005

    let instructions = vec![
        0b0010001000000101, // LD R1, #5 ; Load from 0x3000 + 5 into R1
        0b0011010000001010, // ST R2, #10 ; Store R2 to address 0x3000 + 10 = 0x300A
    ];

    opcode::handle_ld(instructions[0], &mut memory, &mut registers);
    assert_eq!(registers.get(1), 42); // R1 should now equal 42

    registers.set(2, 100);
    opcode::handle_st(instructions[1], &mut memory, &mut registers);
    assert_eq!(memory.read(0x300A), 100); // Memory at 0x300A should now be 100
}

#[test]
fn test_ldr_and_str_instructions() {
    let mut memory = Memory::new();
    let mut registers = Registers::new();

    registers.set(3, 0x4000); // Base register
    memory.write(0x4005, 42); // Write value 42 at address 0x4005

    let instructions = vec![
        0b0110001011000101, // LDR R1, R3, #5 ; Load from 0x4000 + 5 into R1
        0b0111010011001010, // STR R2, R3, #10 ; Store R2 to address 0x4000 + 10 = 0x400A
    ];

    opcode::handle_ldr(instructions[0], &mut memory, &mut registers);
    assert_eq!(registers.get(1), 42); // R1 should now equal 42

    registers.set(2, 100);
    opcode::handle_str(instructions[1], &mut memory, &mut registers);
    assert_eq!(memory.read(0x400A), 100); // Memory at 0x400A should now be 100
}

#[test]
fn test_ldi_and_sti_instructions() {
    let mut memory = Memory::new();
    let mut registers = Registers::new();

    registers.set_pc(0x3000);
    memory.write(0x3005, 0x4000); // Address to indirect memory location
    memory.write(0x4000, 42); // Value at indirect location

    let instructions = vec![
        0b1010001000000101, // LDI R1, #5 ; Load from memory[memory[0x3000 + 5]] into R1
        0b1011010000001010, // STI R2, #10 ; Store R2 to memory[memory[0x3000 + 10]]
    ];

    opcode::handle_ldi(instructions[0], &mut memory, &mut registers);
    assert_eq!(registers.get(1), 42); // R1 should now equal 42

    registers.set(2, 100);
    memory.write(0x300A, 0x5000); // Add pointer for STI
    opcode::handle_sti(instructions[1], &mut memory, &mut registers);
    assert_eq!(memory.read(0x5000), 100); // Memory at indirect location should now be 100
}

#[test]
fn test_not_instruction() {
    let mut registers = Registers::new();

    registers.set(1, 0b1010);

    let instructions = vec![
        0b1001010001111111, // NOT R2, R1 ; R2 = ~R1 = ~0b1010 = 0b...11110101
    ];

    opcode::handle_not(instructions[0], &mut registers);
    assert_eq!(registers.get(2), !0b1010);
}

#[test]
fn test_lea_instruction() {
    let mut registers = Registers::new();

    registers.set_pc(0x3000);

    let instructions = vec![
        0b1110001000000101, // LEA R1, #5 ; R1 = PC + 5 = 0x3000 + 5 = 0x3005
    ];

    opcode::handle_lea(instructions[0], &mut registers);
    assert_eq!(registers.get(1), 0x3005);
}

#[test]
fn test_add_and_imm_reg_modes_agree() {
    // Immediate mode and register mode of ADD and AND agree when the second
    // source register holds what the immediate sign-extends to: here -3.
    let imm5: u16 = 0b11101; // -3 in 5 bits
    let sign_extended: u16 = 0xFFFD;
    assert_eq!(sign_extend(imm5, 5), sign_extended);

    let mut r_imm = Registers::new();
    r_imm.set(1, 41);
    let mut r_reg = Registers::new();
    r_reg.set(1, 41);
    r_reg.set(3, sign_extended);

    // ADD R2, R1, #-3 against ADD R2, R1, R3
    opcode::handle_add(0b0001_010_001_1_11101, &mut r_imm);
    opcode::handle_add(0b0001_010_001_0_00_011, &mut r_reg);
    assert_eq!(r_imm.get(2), r_reg.get(2));
    assert_eq!(r_imm.get(2), 38);
    assert_eq!(r_imm.get_cond_flag(), r_reg.get_cond_flag());

    // AND R2, R1, #-3 against AND R2, R1, R3
    opcode::handle_and(0b0101_010_001_1_11101, &mut r_imm);
    opcode::handle_and(0b0101_010_001_0_00_011, &mut r_reg);
    assert_eq!(r_imm.get(2), r_reg.get(2));
    assert_eq!(r_imm.get(2), 41 & 0xFFFD);
}

#[test]
fn test_add_wraparound() {
    let mut registers = Registers::new();
    registers.set(1, 0xFFFF);
    // ADD R2, R1, #1 wraps to zero and leaves the zero flag.
    opcode::handle_add(0b0001_010_001_1_00001, &mut registers);
    assert_eq!(registers.get(2), 0);
    assert_eq!(registers.get_cond_flag(), 2);
}

#[test]
fn test_br_all_masks_and_flags() {
    // BR branches exactly when (condition bits AND flag bits) is nonzero:
    // all 8 condition masks against all 3 flag states.
    let flag_values: [u16; 3] = [1, 0x8000, 0]; // positive, negative, zero
    let flag_bits: [u16; 3] = [1, 4, 2];
    let mut f: usize = 0;
    while f < 3 {
        let mut mask: u16 = 0;
        while mask < 8 {
            let mut registers = Registers::new();
            registers.set_pc(0x3000);
            registers.set(0, flag_values[f]);
            let instr: u16 = (mask << 9) | 0x005; // BR with offset 5
            opcode::handle_br(instr, &mut registers);
            let expected: u16 = if mask & flag_bits[f] != 0 { 0x3005 } else { 0x3000 };
            assert_eq!(registers.get_pc(), expected);
            mask += 1;
        }
        f += 1;
    }
}

#[test]
fn test_jsr_updates_flag_from_return_address() {
    // The R7 write of JSR recomputes the flag like every register write.
    let mut registers = Registers::new();
    registers.set_pc(0x8000);
    opcode::handle_jsr(0b0100_1_00000000001, &mut registers);
    assert_eq!(registers.get(7), 0x8000);
    assert_eq!(registers.get_cond_flag(), 4); // 0x8000 reads as negative
}

#[test]
fn test_jsrr_through_r7_jumps_to_saved_pc() {
    // JSRR with base register 7 reads R7 after the link write, so it jumps
    // to the just-saved program counter.
    let mut registers = Registers::new();
    registers.set_pc(0x3456);
    registers.set(7, 0x1111);
    opcode::handle_jsr(0b0100_000_111_000000, &mut registers);
    assert_eq!(registers.get(7), 0x3456);
    assert_eq!(registers.get_pc(), 0x3456);
}

#[test]
fn test_ldi_sti_use_indirect_address() {
    // The cell finally touched is memory[memory[PC + offset]], not
    // PC + offset itself.
    let mut memory = Memory::new();
    let mut registers = Registers::new();
    registers.set_pc(0x3000);
    memory.write(0x3005, 0x4000);
    registers.set(2, 77);
    opcode::handle_sti(0b1011_010_000000101, &mut memory, &mut registers);
    assert_eq!(memory.read(0x4000), 77);
    assert_eq!(memory.read(0x3005), 0x4000); // the pointer cell is untouched

    registers.set(1, 0);
    opcode::handle_ldi(0b1010_001_000000101, &mut memory, &mut registers);
    assert_eq!(registers.get(1), 77);
}

#[test]
fn test_opcode_decoding() {
    assert_eq!(OpCode::from_instr(0x0000), OpCode::BR);
    assert_eq!(OpCode::from_instr(0x1234), OpCode::ADD);
    assert_eq!(OpCode::from_instr(0x2000), OpCode::LD);
    assert_eq!(OpCode::from_instr(0x3000), OpCode::ST);
    assert_eq!(OpCode::from_instr(0x4000), OpCode::JSR);
    assert_eq!(OpCode::from_instr(0x5000), OpCode::AND);
    assert_eq!(OpCode::from_instr(0x6000), OpCode::LDR);
    assert_eq!(OpCode::from_instr(0x7000), OpCode::STR);
    assert_eq!(OpCode::from_instr(0x8000), OpCode::RTI);
    assert_eq!(OpCode::from_instr(0x9000), OpCode::NOT);
    assert_eq!(OpCode::from_instr(0xA000), OpCode::LDI);
    assert_eq!(OpCode::from_instr(0xB000), OpCode::STI);
    assert_eq!(OpCode::from_instr(0xC000), OpCode::JMP);
    assert_eq!(OpCode::from_instr(0xD000), OpCode::RES);
    assert_eq!(OpCode::from_instr(0xEFFF), OpCode::LEA);
    assert_eq!(OpCode::from_instr(0xF025), OpCode::TRAP);
}
