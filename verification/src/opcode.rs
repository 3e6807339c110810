//! The opcode decoder and one semantic handler per opcode.
//!
//! Every handler is a total function of the instruction word and the machine
//! state: register and memory effects are stated against the spec functions
//! below, and all address and data arithmetic wraps at 16 bits.

use vstd::prelude::*;

use crate::memory::{mem_size, Memory};
use crate::register::{flag_bits, write_reg, RegView, Registers};
use crate::utils::{sext, sign_extend};

verus! {

/// The 16 instruction classes, one per value of the top nibble of an
/// instruction word.
#[derive(Clone, Copy, PartialEq, Eq, Structural, Debug)]
pub enum OpCode {
    BR,
    ADD,
    LD,
    ST,
    JSR,
    AND,
    LDR,
    STR,
    RTI,
    NOT,
    LDI,
    STI,
    JMP,
    RES,
    LEA,
    TRAP,
}

/// The opcode spelled by the top nibble of an instruction word. The mapping
/// is exhaustive: every 4-bit tag decodes.
pub open spec fn decode(instr: u16) -> OpCode {
    let tag = instr >> 12;
    if tag == 0 {
        OpCode::BR
    } else if tag == 1 {
        OpCode::ADD
    } else if tag == 2 {
        OpCode::LD
    } else if tag == 3 {
        OpCode::ST
    } else if tag == 4 {
        OpCode::JSR
    } else if tag == 5 {
        OpCode::AND
    } else if tag == 6 {
        OpCode::LDR
    } else if tag == 7 {
        OpCode::STR
    } else if tag == 8 {
        OpCode::RTI
    } else if tag == 9 {
        OpCode::NOT
    } else if tag == 10 {
        OpCode::LDI
    } else if tag == 11 {
        OpCode::STI
    } else if tag == 12 {
        OpCode::JMP
    } else if tag == 13 {
        OpCode::RES
    } else if tag == 14 {
        OpCode::LEA
    } else {
        OpCode::TRAP
    }
}

/// The destination (or source, for stores) register field, bits 11..9.
pub open spec fn dst_reg(instr: u16) -> int {
    ((instr >> 9) & 0x7) as int
}

/// The first source register field, bits 8..6; also the base register field.
pub open spec fn base_reg(instr: u16) -> int {
    ((instr >> 6) & 0x7) as int
}

/// The second source register field, bits 2..0.
pub open spec fn src_reg2(instr: u16) -> int {
    (instr & 0x7) as int
}

/// Whether bit 5 selects immediate mode for ADD and AND.
pub open spec fn imm_mode(instr: u16) -> bool {
    (instr >> 5) & 0x1 == 1
}

/// The sign-extended 5-bit immediate of ADD and AND.
pub open spec fn imm5(instr: u16) -> u16 {
    sext(instr & 0x1F, 5)
}

/// The sign-extended 9-bit program-counter displacement.
pub open spec fn pc_offset9(instr: u16) -> u16 {
    sext(instr & 0x1FF, 9)
}

/// The sign-extended 11-bit subroutine displacement of JSR.
pub open spec fn pc_offset11(instr: u16) -> u16 {
    sext(instr & 0x7FF, 11)
}

/// The sign-extended 6-bit base-register displacement of LDR and STR.
pub open spec fn offset6(instr: u16) -> u16 {
    sext(instr & 0x3F, 6)
}

/// ADD: the destination takes the first source plus either the second
/// source or the immediate, with wraparound; the flag follows the write.
pub open spec fn add_spec(r: RegView, instr: u16) -> RegView {
    let operand = if imm_mode(instr) {
        imm5(instr)
    } else {
        r.gprs[src_reg2(instr)]
    };
    write_reg(r, dst_reg(instr), r.gprs[base_reg(instr)].wrapping_add(operand))
}

/// AND: as ADD, with bitwise conjunction in place of addition.
pub open spec fn and_spec(r: RegView, instr: u16) -> RegView {
    let operand = if imm_mode(instr) {
        imm5(instr)
    } else {
        r.gprs[src_reg2(instr)]
    };
    write_reg(r, dst_reg(instr), r.gprs[base_reg(instr)] & operand)
}

/// NOT: the destination takes the bitwise complement of the source.
pub open spec fn not_spec(r: RegView, instr: u16) -> RegView {
    write_reg(r, dst_reg(instr), !r.gprs[base_reg(instr)])
}

/// BR: the program counter moves by the displacement exactly when the
/// instruction's condition bits meet the current flag's bit.
pub open spec fn br_spec(r: RegView, instr: u16) -> RegView {
    if flag_bits(r.cond) & ((instr >> 9) & 0x7) != 0 {
        RegView { gprs: r.gprs, pc: r.pc.wrapping_add(pc_offset9(instr)), cond: r.cond }
    } else {
        r
    }
}

/// JMP: the program counter takes the base register's value.
pub open spec fn jmp_spec(r: RegView, instr: u16) -> RegView {
    RegView { gprs: r.gprs, pc: r.gprs[base_reg(instr)], cond: r.cond }
}

/// JSR/JSRR: R7 takes the pre-jump program counter (a register write, so the
/// flag follows it); the program counter then takes either the old counter
/// plus the long displacement, or the base register's value — read after the
/// R7 write, so JSRR through R7 jumps to the saved counter.
pub open spec fn jsr_spec(r: RegView, instr: u16) -> RegView {
    let linked = write_reg(r, 7, r.pc);
    if (instr >> 11) & 1 == 1 {
        RegView { gprs: linked.gprs, pc: r.pc.wrapping_add(pc_offset11(instr)), cond: linked.cond }
    } else {
        RegView { gprs: linked.gprs, pc: linked.gprs[base_reg(instr)], cond: linked.cond }
    }
}

/// LD: the destination takes the word at counter plus displacement.
pub open spec fn ld_spec(r: RegView, m: Seq<u16>, instr: u16) -> RegView {
    write_reg(r, dst_reg(instr), m[r.pc.wrapping_add(pc_offset9(instr)) as int])
}

/// ST: the word at counter plus displacement takes the source register.
pub open spec fn st_spec(r: RegView, m: Seq<u16>, instr: u16) -> Seq<u16> {
    m.update(r.pc.wrapping_add(pc_offset9(instr)) as int, r.gprs[dst_reg(instr)])
}

/// LDR: the destination takes the word at base register plus displacement.
pub open spec fn ldr_spec(r: RegView, m: Seq<u16>, instr: u16) -> RegView {
    write_reg(r, dst_reg(instr), m[r.gprs[base_reg(instr)].wrapping_add(offset6(instr)) as int])
}

/// STR: the word at base register plus displacement takes the source.
pub open spec fn str_spec(r: RegView, m: Seq<u16>, instr: u16) -> Seq<u16> {
    m.update(r.gprs[base_reg(instr)].wrapping_add(offset6(instr)) as int, r.gprs[dst_reg(instr)])
}

/// LDI: double indirection — the destination takes the word whose address is
/// stored at counter plus displacement.
pub open spec fn ldi_spec(r: RegView, m: Seq<u16>, instr: u16) -> RegView {
    write_reg(r, dst_reg(instr), m[m[r.pc.wrapping_add(pc_offset9(instr)) as int] as int])
}

/// STI: double indirection — the source is stored at the address found at
/// counter plus displacement.
pub open spec fn sti_spec(r: RegView, m: Seq<u16>, instr: u16) -> Seq<u16> {
    m.update(m[r.pc.wrapping_add(pc_offset9(instr)) as int] as int, r.gprs[dst_reg(instr)])
}

/// LEA: the destination takes the address counter plus displacement itself,
/// with no memory access.
pub open spec fn lea_spec(r: RegView, instr: u16) -> RegView {
    write_reg(r, dst_reg(instr), r.pc.wrapping_add(pc_offset9(instr)))
}

/// Bounds of the bit fields an instruction word can spell: register indices
/// fit in 3 bits, the trap vector in 8, its nibbles in 4.
proof fn lemma_field_bounds(instr: u16)
    by (bit_vector)
    ensures
        (instr >> 9) & 0x7 < 8,
        (instr >> 6) & 0x7 < 8,
        instr & 0x7 < 8,
        instr >> 12 < 16,
{
}

impl OpCode {
    /// Decodes the top nibble of an instruction word; no instruction fails
    /// to decode.
    pub fn from_instr(instr: u16) -> (r: OpCode)
        ensures
            r == decode(instr),
    {
        proof {
            lemma_field_bounds(instr);
        }
        match instr >> 12 {
            0 => OpCode::BR,
            1 => OpCode::ADD,
            2 => OpCode::LD,
            3 => OpCode::ST,
            4 => OpCode::JSR,
            5 => OpCode::AND,
            6 => OpCode::LDR,
            7 => OpCode::STR,
            8 => OpCode::RTI,
            9 => OpCode::NOT,
            10 => OpCode::LDI,
            11 => OpCode::STI,
            12 => OpCode::JMP,
            13 => OpCode::RES,
            14 => OpCode::LEA,
            _ => OpCode::TRAP,
        }
    }
}

/// Handles ADD: destination takes first source plus second source or
/// immediate, wraparound; the flag follows the destination write.
pub fn handle_add(instr: u16, reg: &mut Registers)
    requires
        old(reg).wf(),
    ensures
        final(reg).wf(),
        final(reg)@ == add_spec(old(reg)@, instr),
{
    proof {
        lemma_field_bounds(instr);
    }
    let dr = ((instr >> 9) & 0x7) as usize;
    let sr1 = ((instr >> 6) & 0x7) as usize;
    let imm_flag = (instr >> 5) & 0x1;

    if imm_flag == 1 {
        let imm = sign_extend(instr & 0x1F, 5);
        let v = reg.get(sr1).wrapping_add(imm);
        reg.set(dr, v);
    } else {
        let sr2 = (instr & 0x7) as usize;
        let v = reg.get(sr1).wrapping_add(reg.get(sr2));
        reg.set(dr, v);
    }
}

/// Handles AND: destination takes the conjunction of the first source with
/// the second source or the immediate.
pub fn handle_and(instr: u16, reg: &mut Registers)
    requires
        old(reg).wf(),
    ensures
        final(reg).wf(),
        final(reg)@ == and_spec(old(reg)@, instr),
{
    proof {
        lemma_field_bounds(instr);
    }
    let dr = ((instr >> 9) & 0x7) as usize;
    let sr1 = ((instr >> 6) & 0x7) as usize;
    let imm_flag = (instr >> 5) & 0x1;

    if imm_flag == 1 {
        let imm = sign_extend(instr & 0x1F, 5);
        let v = reg.get(sr1) & imm;
        reg.set(dr, v);
    } else {
        let sr2 = (instr & 0x7) as usize;
        let v = reg.get(sr1) & reg.get(sr2);
        reg.set(dr, v);
    }
}

/// Handles NOT: destination takes the complement of the source.
pub fn handle_not(instr: u16, reg: &mut Registers)
    requires
        old(reg).wf(),
    ensures
        final(reg).wf(),
        final(reg)@ == not_spec(old(reg)@, instr),
{
    proof {
        lemma_field_bounds(instr);
    }
    let dr = ((instr >> 9) & 0x7) as usize;
    let sr = ((instr >> 6) & 0x7) as usize;
    let v = !reg.get(sr);
    reg.set(dr, v);
}

/// Handles BR: branches exactly when the instruction's condition bits and
/// the current flag's bit share a set position.
pub fn handle_br(instr: u16, reg: &mut Registers)
    requires
        old(reg).wf(),
    ensures
        final(reg).wf(),
        final(reg)@ == br_spec(old(reg)@, instr),
{
    let cond_mask = (instr >> 9) & 0x7;
    let pc_offset = sign_extend(instr & 0x1FF, 9);

    let cond = reg.get_cond_flag();
    if cond & cond_mask != 0 {
        let pc = reg.get_pc().wrapping_add(pc_offset);
        reg.set_pc(pc);
    }
}

/// Handles JMP (and RET, its base-register-7 spelling): the program counter
/// takes the base register's value.
pub fn handle_jmp(instr: u16, reg: &mut Registers)
    requires
        old(reg).wf(),
    ensures
        final(reg).wf(),
        final(reg)@ == jmp_spec(old(reg)@, instr),
{
    proof {
        lemma_field_bounds(instr);
    }
    let base_r = ((instr >> 6) & 0x7) as usize;
    let address = reg.get(base_r);
    reg.set_pc(address);
}

/// Handles JSR/JSRR: saves the pre-jump program counter in R7, then jumps to
/// counter plus displacement (long form) or to the base register's value.
pub fn handle_jsr(instr: u16, reg: &mut Registers)
    requires
        old(reg).wf(),
    ensures
        final(reg).wf(),
        final(reg)@ == jsr_spec(old(reg)@, instr),
{
    proof {
        lemma_field_bounds(instr);
    }
    let long_flag = (instr >> 11) & 1;

    let ret_addr = reg.get_pc();
    reg.set(7, ret_addr);

    if long_flag == 1 {
        let offset = sign_extend(instr & 0x7FF, 11);
        reg.set_pc(ret_addr.wrapping_add(offset));
    } else {
        let base_r = ((instr >> 6) & 0x7) as usize;
        let target = reg.get(base_r);
        reg.set_pc(target);
    }
}

/// Handles LD: destination takes the word at counter plus displacement.
pub fn handle_ld(instr: u16, mem: &mut Memory, reg: &mut Registers)
    requires
        old(mem).wf(),
        old(reg).wf(),
    ensures
        final(mem).wf(),
        final(reg).wf(),
        final(mem)@ == old(mem)@,
        final(reg)@ == ld_spec(old(reg)@, old(mem)@, instr),
{
    proof {
        lemma_field_bounds(instr);
    }
    let dr = ((instr >> 9) & 0x7) as usize;
    let pc_offset = sign_extend(instr & 0x1FF, 9);
    let address = reg.get_pc().wrapping_add(pc_offset);
    let value = mem.read(address);
    reg.set(dr, value);
}

/// Handles ST: the word at counter plus displacement takes the source; no
/// flag changes, since only register writes update flags.
pub fn handle_st(instr: u16, mem: &mut Memory, reg: &mut Registers)
    requires
        old(mem).wf(),
        old(reg).wf(),
    ensures
        final(mem).wf(),
        final(reg).wf(),
        final(reg)@ == old(reg)@,
        final(mem)@ == st_spec(old(reg)@, old(mem)@, instr),
{
    proof {
        lemma_field_bounds(instr);
    }
    let sr = ((instr >> 9) & 0x7) as usize;
    let pc_offset = sign_extend(instr & 0x1FF, 9);
    let address = reg.get_pc().wrapping_add(pc_offset);
    let value = reg.get(sr);
    mem.write(address, value);
}

/// Handles LDR: destination takes the word at base plus displacement.
pub fn handle_ldr(instr: u16, mem: &mut Memory, reg: &mut Registers)
    requires
        old(mem).wf(),
        old(reg).wf(),
    ensures
        final(mem).wf(),
        final(reg).wf(),
        final(mem)@ == old(mem)@,
        final(reg)@ == ldr_spec(old(reg)@, old(mem)@, instr),
{
    proof {
        lemma_field_bounds(instr);
    }
    let dr = ((instr >> 9) & 0x7) as usize;
    let base_r = ((instr >> 6) & 0x7) as usize;
    let offset = sign_extend(instr & 0x3F, 6);
    let address = reg.get(base_r).wrapping_add(offset);
    let value = mem.read(address);
    reg.set(dr, value);
}

/// Handles STR: the word at base plus displacement takes the source.
pub fn handle_str(instr: u16, mem: &mut Memory, reg: &mut Registers)
    requires
        old(mem).wf(),
        old(reg).wf(),
    ensures
        final(mem).wf(),
        final(reg).wf(),
        final(reg)@ == old(reg)@,
        final(mem)@ == str_spec(old(reg)@, old(mem)@, instr),
{
    proof {
        lemma_field_bounds(instr);
    }
    let sr = ((instr >> 9) & 0x7) as usize;
    let base_r = ((instr >> 6) & 0x7) as usize;
    let offset = sign_extend(instr & 0x3F, 6);
    let address = reg.get(base_r).wrapping_add(offset);
    let value = reg.get(sr);
    mem.write(address, value);
}

/// Handles STI: stores the source at the address found at counter plus
/// displacement — two memory accesses, one read and one write.
pub fn handle_sti(instr: u16, mem: &mut Memory, reg: &mut Registers)
    requires
        old(mem).wf(),
        old(reg).wf(),
    ensures
        final(mem).wf(),
        final(reg).wf(),
        final(reg)@ == old(reg)@,
        final(mem)@ == sti_spec(old(reg)@, old(mem)@, instr),
{
    proof {
        lemma_field_bounds(instr);
    }
    let sr = ((instr >> 9) & 0x7) as usize;
    let pc_offset = sign_extend(instr & 0x1FF, 9);
    let address = reg.get_pc().wrapping_add(pc_offset);
    let value = reg.get(sr);
    let target_addr = mem.read(address);
    mem.write(target_addr, value);
}

/// Handles LDI: loads the destination from the address found at counter plus
/// displacement — two memory reads.
pub fn handle_ldi(instr: u16, mem: &mut Memory, reg: &mut Registers)
    requires
        old(mem).wf(),
        old(reg).wf(),
    ensures
        final(mem).wf(),
        final(reg).wf(),
        final(mem)@ == old(mem)@,
        final(reg)@ == ldi_spec(old(reg)@, old(mem)@, instr),
{
    proof {
        lemma_field_bounds(instr);
    }
    let dr = ((instr >> 9) & 0x7) as usize;
    let pc_offset = sign_extend(instr & 0x1FF, 9);
    let address = reg.get_pc().wrapping_add(pc_offset);
    let indirect_addr = mem.read(address);
    let value = mem.read(indirect_addr);
    reg.set(dr, value);
}

/// Handles LEA: destination takes the address counter plus displacement.
pub fn handle_lea(instr: u16, reg: &mut Registers)
    requires
        old(reg).wf(),
    ensures
        final(reg).wf(),
        final(reg)@ == lea_spec(old(reg)@, instr),
{
    proof {
        lemma_field_bounds(instr);
    }
    let dr = ((instr >> 9) & 0x7) as usize;
    let pc_offset = sign_extend(instr & 0x1FF, 9);
    let address = reg.get_pc().wrapping_add(pc_offset);
    reg.set(dr, address);
}

/// The immediate-mode ADD or AND word with the given fields (bit 5 set).
pub open spec fn encode_imm(opcode_nibble: u16, dr: u16, sr1: u16, imm: u16) -> u16 {
    (opcode_nibble << 12) | (dr << 9) | (sr1 << 6) | 0x20 | imm
}

/// The register-mode ADD or AND word with the given fields (bit 5 clear).
pub open spec fn encode_reg(opcode_nibble: u16, dr: u16, sr1: u16, sr2: u16) -> u16 {
    (opcode_nibble << 12) | (dr << 9) | (sr1 << 6) | sr2
}

/// Immediate mode and register mode agree: when the second source register
/// holds exactly what the 5-bit immediate sign-extends to, ADD and AND leave
/// the register file in the same state either way.
pub proof fn lemma_imm_reg_modes_agree(r: RegView, dr: u16, sr1: u16, sr2: u16, imm: u16)
    requires
        r.gprs.len() == 8,
        dr < 8,
        sr1 < 8,
        sr2 < 8,
        imm < 32,
        r.gprs[sr2 as int] == sext(imm, 5),
    ensures
        add_spec(r, encode_imm(1, dr, sr1, imm)) == add_spec(r, encode_reg(1, dr, sr1, sr2)),
        and_spec(r, encode_imm(5, dr, sr1, imm)) == and_spec(r, encode_reg(5, dr, sr1, sr2)),
{
    lemma_encode_imm_fields(1, dr, sr1, imm);
    lemma_encode_reg_fields(1, dr, sr1, sr2);
    lemma_encode_imm_fields(5, dr, sr1, imm);
    lemma_encode_reg_fields(5, dr, sr1, sr2);
}

/// Field extraction undoes the immediate-mode encoding.
proof fn lemma_encode_imm_fields(op: u16, dr: u16, sr1: u16, imm: u16)
    by (bit_vector)
    requires
        dr < 8,
        sr1 < 8,
        imm < 32,
    ensures
        (((op << 12) | (dr << 9) | (sr1 << 6) | 0x20 | imm) >> 9) & 0x7 == dr,
        (((op << 12) | (dr << 9) | (sr1 << 6) | 0x20 | imm) >> 6) & 0x7 == sr1,
        (((op << 12) | (dr << 9) | (sr1 << 6) | 0x20 | imm) >> 5) & 0x1 == 1,
        ((op << 12) | (dr << 9) | (sr1 << 6) | 0x20 | imm) & 0x1F == imm,
{
}

/// Field extraction undoes the register-mode encoding.
proof fn lemma_encode_reg_fields(op: u16, dr: u16, sr1: u16, sr2: u16)
    by (bit_vector)
    requires
        dr < 8,
        sr1 < 8,
        sr2 < 8,
    ensures
        (((op << 12) | (dr << 9) | (sr1 << 6) | sr2) >> 9) & 0x7 == dr,
        (((op << 12) | (dr << 9) | (sr1 << 6) | sr2) >> 6) & 0x7 == sr1,
        (((op << 12) | (dr << 9) | (sr1 << 6) | sr2) >> 5) & 0x1 == 0,
        ((op << 12) | (dr << 9) | (sr1 << 6) | sr2) & 0x7 == sr2,
{
}

/// BR branches exactly when the instruction's condition bits and the current
/// flag share a set position; registers and flag are never touched.
pub proof fn lemma_br_exactly_on_mask(r: RegView, instr: u16)
    ensures
        flag_bits(r.cond) & ((instr >> 9) & 0x7) != 0 ==> br_spec(r, instr).pc
            == r.pc.wrapping_add(pc_offset9(instr)),
        flag_bits(r.cond) & ((instr >> 9) & 0x7) == 0 ==> br_spec(r, instr).pc == r.pc,
        br_spec(r, instr).gprs == r.gprs,
        br_spec(r, instr).cond == r.cond,
{
}

/// JSR and JSRR always link: R7 takes the pre-jump program counter, and the
/// counter then takes old counter plus displacement (long form) or the base
/// register's value as R7's write left it.
pub proof fn lemma_jsr_links_return(r: RegView, instr: u16)
    requires
        r.gprs.len() == 8,
    ensures
        jsr_spec(r, instr).gprs[7] == r.pc,
        (instr >> 11) & 1 == 1 ==> jsr_spec(r, instr).pc == r.pc.wrapping_add(pc_offset11(instr)),
        (instr >> 11) & 1 != 1 ==> jsr_spec(r, instr).pc == write_reg(r, 7, r.pc).gprs[base_reg(
            instr,
        )],
{
    lemma_field_bounds(instr);
}

/// LDI and STI address through one indirection: the cell finally read or
/// written is the one whose address sits at counter plus displacement — not
/// the cell at counter plus displacement itself, which STI leaves alone
/// whenever it is not the indirect target.
pub proof fn lemma_indirect_addressing(r: RegView, m: Seq<u16>, instr: u16)
    requires
        r.gprs.len() == 8,
        m.len() == mem_size(),
    ensures
        ldi_spec(r, m, instr) == write_reg(
            r,
            dst_reg(instr),
            m[m[r.pc.wrapping_add(pc_offset9(instr)) as int] as int],
        ),
        sti_spec(r, m, instr)[m[r.pc.wrapping_add(pc_offset9(instr)) as int] as int] == r.gprs[
            dst_reg(instr)],
        forall|a: int|
            0 <= a < m.len() && a != m[r.pc.wrapping_add(pc_offset9(instr)) as int] as int
                ==> #[trigger] sti_spec(r, m, instr)[a] == m[a],
{
}

} // verus!
