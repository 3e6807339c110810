//! The trap (system-call) dispatcher, keyed by the low 8 bits of the
//! instruction word.
//!
//! Console I/O crosses this boundary as plain bytes: an input byte is handed
//! in for the reading traps, and everything a trap prints is appended to an
//! output byte vector for the caller to deliver. The dispatcher itself —
//! which trap runs, what it does to the registers, which bytes it emits, and
//! whether execution continues — is all verified.

use vstd::arithmetic::div_mod::{
    lemma_add_mod_noop, lemma_mod_bound, lemma_mod_self_0, lemma_small_mod,
};
use vstd::prelude::*;

use crate::memory::Memory;
use crate::register::{write_reg, RegView, Registers};

verus! {

/// The trap vector: the low 8 bits of the instruction word.
pub open spec fn trap_vector(instr: u16) -> u16 {
    instr & 0xFF
}

/// Whether the trap reads a character, so that a caller must supply an
/// input byte: GETC (0x20) and IN (0x23).
pub open spec fn trap_reads_input(instr: u16) -> bool {
    trap_vector(instr) == 0x20 || trap_vector(instr) == 0x23
}

/// The address `k` words past `base`, with 16-bit wraparound.
pub open spec fn wrap_idx(base: u16, k: int) -> int {
    (base + k) % 0x10000
}

/// The low byte of the word at `a`: the character a string word spells.
pub open spec fn word_low(m: Seq<u16>, a: int) -> u8 {
    (m[a] & 0xFF) as u8
}

/// The high byte of the word at `a`: the second packed character.
pub open spec fn word_high(m: Seq<u16>, a: int) -> u8 {
    (m[a] >> 8) as u8
}

/// The first `k` characters of the one-character-per-word string at `start`.
pub open spec fn puts_bytes(m: Seq<u16>, start: u16, k: int) -> Seq<u8> {
    Seq::new(k as nat, |j: int| word_low(m, wrap_idx(start, j)))
}

/// What PUTS emits: the low bytes of the words from the address in R0 up to
/// but not including the first zero word — the terminator is within one wrap
/// of the address space, nothing before it is zero, and the emitted bytes
/// are exactly the low bytes before it. A string with no zero word anywhere
/// has no end; the scan then covers the whole address space once, emitting
/// every cell's low byte, rather than walking the same wrap forever.
pub open spec fn puts_post(m: Seq<u16>, start: u16, out0: Seq<u8>, out1: Seq<u8>) -> bool {
    ||| exists|k: int|
        {
            &&& 0 <= k < 0x10000
            &&& m[#[trigger] wrap_idx(start, k)] == 0
            &&& forall|j: int| 0 <= j < k ==> m[#[trigger] wrap_idx(start, j)] != 0
            &&& out1 == out0 + puts_bytes(m, start, k)
        }
    ||| {
        &&& forall|j: int| 0 <= j < 0x10000 ==> m[#[trigger] wrap_idx(start, j)] != 0
        &&& out1 == out0 + puts_bytes(m, start, 0x10000)
    }
}

/// The first `n` characters of the two-packed-characters-per-word string at
/// `start`: low byte then high byte of each word in turn.
pub open spec fn putsp_bytes(m: Seq<u16>, start: u16, n: int) -> Seq<u8> {
    Seq::new(
        n as nat,
        |j: int|
            if j % 2 == 0 {
                word_low(m, wrap_idx(start, j / 2))
            } else {
                word_high(m, wrap_idx(start, j / 2))
            },
    )
}

/// What PUTSP emits: two packed characters per word from the address in R0,
/// stopping at the first zero byte — at a zero low byte nothing more of that
/// word is emitted, at a zero high byte the low byte still is. A string with
/// no zero byte anywhere has no end; the scan then covers the whole address
/// space once, emitting both bytes of every cell, rather than walking the
/// same wrap forever.
pub open spec fn putsp_post(m: Seq<u16>, start: u16, out0: Seq<u8>, out1: Seq<u8>) -> bool {
    ||| exists|k: int|
        {
            &&& 0 <= k < 0x10000
            &&& forall|j: int|
                0 <= j < k ==> word_low(m, #[trigger] wrap_idx(start, j)) != 0 && word_high(
                    m,
                    wrap_idx(start, j),
                ) != 0
            &&& {
                ||| (word_low(m, wrap_idx(start, k)) == 0 && out1 == out0 + putsp_bytes(
                    m,
                    start,
                    2 * k,
                ))
                ||| (word_low(m, wrap_idx(start, k)) != 0 && word_high(m, wrap_idx(start, k)) == 0
                    && out1 == out0 + putsp_bytes(m, start, 2 * k + 1))
            }
        }
    ||| {
        &&& forall|j: int|
            0 <= j < 0x10000 ==> word_low(m, #[trigger] wrap_idx(start, j)) != 0 && word_high(
                m,
                wrap_idx(start, j),
            ) != 0
        &&& out1 == out0 + putsp_bytes(m, start, 2 * 0x10000int)
    }
}

/// A hexadecimal digit character, upper case.
pub open spec fn hex_digit(n: u16) -> u8 {
    if n < 10 {
        (48 + n) as u8
    } else {
        (55 + n) as u8
    }
}

/// The IN trap's prompt.
pub open spec fn prompt_msg() -> Seq<u8> {
    seq![69u8, 110u8, 116u8, 101u8, 114u8, 32u8, 97u8, 32u8, 99u8, 104u8, 97u8, 114u8, 97u8, 99u8, 116u8, 101u8, 114u8, 58u8, 32u8]
}

/// The HALT trap's notice.
pub open spec fn halt_msg() -> Seq<u8> {
    seq![13u8, 10u8, 72u8, 65u8, 76u8, 84u8, 13u8, 10u8]
}

/// The notice an unrecognized trap vector leaves, naming the vector in two
/// upper-case hexadecimal digits.
pub open spec fn unknown_msg(vector: u16) -> Seq<u8> {
    seq![84u8, 82u8, 65u8, 80u8, 32u8, 48u8, 120u8] + seq![
        hex_digit((vector >> 4) & 0xF),
        hex_digit(vector & 0xF),
    ] + seq![32u8, 110u8, 111u8, 116u8, 32u8, 105u8, 109u8, 112u8, 108u8, 101u8, 109u8, 101u8, 110u8, 116u8, 101u8, 100u8, 13u8, 10u8]
}

/// Everything a trap does, as a relation between the machine before the
/// dispatch and the machine after it: `r0` is the register file with the
/// program counter already past the instruction, `m0`/`m1` memory before and
/// after (always equal — no trap writes memory), `out0`/`out1` the output
/// bytes before and after. R7 always takes the current program counter
/// first; the defined vectors then act as their contracts say, and an
/// unrecognized vector only leaves its notice.
pub open spec fn trap_rel(
    instr: u16,
    m0: Seq<u16>,
    r0: RegView,
    input: Option<u8>,
    m1: Seq<u16>,
    r1: RegView,
    out0: Seq<u8>,
    out1: Seq<u8>,
) -> bool {
    let v = trap_vector(instr);
    let linked = write_reg(r0, 7, r0.pc);
    &&& m1 == m0
    &&& v == 0x20 ==> r1 == write_reg(linked, 0, input.unwrap() as u16) && out1 == out0
    &&& v == 0x21 ==> r1 == linked && out1 == out0 + seq![(r0.gprs[0] & 0xFF) as u8]
    &&& v == 0x22 ==> r1 == linked && puts_post(m0, r0.gprs[0], out0, out1)
    &&& v == 0x23 ==> r1 == write_reg(linked, 0, input.unwrap() as u16) && out1 == out0
        + prompt_msg() + seq![input.unwrap()]
    &&& v == 0x24 ==> r1 == linked && putsp_post(m0, r0.gprs[0], out0, out1)
    &&& v == 0x25 ==> r1 == linked && out1 == out0 + halt_msg()
    &&& !(0x20 <= v <= 0x25) ==> r1 == linked && out1 == out0 + unknown_msg(v)
}

/// Byte and nibble fields of a word are bounded.
proof fn lemma_byte_bounds(w: u16)
    by (bit_vector)
    ensures
        w & 0xFF < 256,
        w >> 8 < 256,
        (w >> 4) & 0xF < 16,
        w & 0xF < 16,
{
}

/// Stepping the wraparound walk: the walk stays in the address space and
/// advances by one modulo its size.
proof fn lemma_wrap_step(base: u16, k: int)
    requires
        k >= 0,
    ensures
        0 <= wrap_idx(base, k) < 0x10000,
        wrap_idx(base, k + 1) == (wrap_idx(base, k) + 1) % 0x10000,
        wrap_idx(base, 0) == base,
{
    lemma_mod_bound(base + k, 0x10000);
    lemma_small_mod(1nat, 0x10000nat);
    lemma_add_mod_noop(base + k, 1, 0x10000);
    lemma_small_mod(base as nat, 0x10000nat);
}

/// One wraparound increment of a 16-bit address is addition modulo the size
/// of the address space.
proof fn lemma_wrap_add_one(a: u16)
    ensures
        a.wrapping_add(1u16) as int == (a + 1) % 0x10000,
{
    if a == 0xFFFF {
        lemma_mod_self_0(0x10000);
    } else {
        lemma_small_mod((a + 1) as nat, 0x10000nat);
    }
}

/// Appends the IN trap's prompt.
fn push_prompt(out: &mut Vec<u8>)
    ensures
        final(out)@ == old(out)@ + prompt_msg(),
{
    out.push(69);
    out.push(110);
    out.push(116);
    out.push(101);
    out.push(114);
    out.push(32);
    out.push(97);
    out.push(32);
    out.push(99);
    out.push(104);
    out.push(97);
    out.push(114);
    out.push(97);
    out.push(99);
    out.push(116);
    out.push(101);
    out.push(114);
    out.push(58);
    out.push(32);
    proof {
        assert(out@ =~= old(out)@ + prompt_msg());
    }
}

/// Appends the HALT trap's notice.
fn push_halt_msg(out: &mut Vec<u8>)
    ensures
        final(out)@ == old(out)@ + halt_msg(),
{
    out.push(13);
    out.push(10);
    out.push(72);
    out.push(65);
    out.push(76);
    out.push(84);
    out.push(13);
    out.push(10);
    proof {
        assert(out@ =~= old(out)@ + halt_msg());
    }
}

/// Appends the unrecognized-vector notice.
fn push_unknown_msg(out: &mut Vec<u8>, vector: u16)
    requires
        vector < 256,
    ensures
        final(out)@ == old(out)@ + unknown_msg(vector),
{
    proof {
        lemma_byte_bounds(vector);
    }
    out.push(84);
    out.push(82);
    out.push(65);
    out.push(80);
    out.push(32);
    out.push(48);
    out.push(120);
    let hi = (vector >> 4) & 0xF;
    let lo = vector & 0xF;
    out.push(if hi < 10 {
        (48 + hi) as u8
    } else {
        (55 + hi) as u8
    });
    out.push(if lo < 10 {
        (48 + lo) as u8
    } else {
        (55 + lo) as u8
    });
    out.push(32);
    out.push(110);
    out.push(111);
    out.push(116);
    out.push(32);
    out.push(105);
    out.push(109);
    out.push(112);
    out.push(108);
    out.push(101);
    out.push(109);
    out.push(101);
    out.push(110);
    out.push(116);
    out.push(101);
    out.push(100);
    out.push(13);
    out.push(10);
    proof {
        assert(out@ =~= old(out)@ + unknown_msg(vector));
    }
}

/// Dispatches a TRAP instruction.
///
/// R7 first takes the current program counter (the trap-as-subroutine
/// convention; a register write, so the flag follows it). The defined
/// vectors then read a character into R0 (GETC 0x20, IN 0x23 — these consume
/// the supplied input byte), emit a character (OUT 0x21), emit a string
/// (PUTS 0x22, PUTSP 0x24), or halt (HALT 0x25). An unrecognized vector
/// leaves a notice and is not fatal. The result is false only for HALT.
pub fn handle_trap(
    instr: u16,
    memory: &mut Memory,
    registers: &mut Registers,
    input: Option<u8>,
    out: &mut Vec<u8>,
) -> (running: bool)
    requires
        old(memory).wf(),
        old(registers).wf(),
        trap_reads_input(instr) ==> input.is_some(),
    ensures
        final(memory).wf(),
        final(registers).wf(),
        running == (trap_vector(instr) != 0x25),
        trap_rel(
            instr,
            old(memory)@,
            old(registers)@,
            input,
            final(memory)@,
            final(registers)@,
            old(out)@,
            final(out)@,
        ),
{
    let vector = instr & 0xFF;
    proof {
        lemma_byte_bounds(instr);
    }

    let pc = registers.get_pc();
    registers.set(7, pc);

    match vector {
        0x20 => {
            // GETC: read one character without echo into R0.
            let c = input.unwrap();
            registers.set(0, c as u16);
        },
        0x21 => {
            // OUT: emit R0's low byte.
            let b = (registers.get(0) & 0xFF) as u8;
            out.push(b);
            proof {
                assert(out@ =~= old(out)@ + seq![(old(registers)@.gprs[0] & 0xFF) as u8]);
            }
        },
        0x22 => {
            // PUTS: emit one character per word until a zero word, at most
            // one full wrap of the address space.
            let start = registers.get(0);
            let mut addr = start;
            let mut count: usize = 0;
            let ghost m = memory@;
            proof {
                lemma_wrap_step(start, 0);
                assert(out@ =~= old(out)@ + puts_bytes(m, start, 0));
            }
            while count < 0x10000
                invariant
                    memory.wf(),
                    memory@ == m,
                    count <= 0x10000,
                    addr as int == wrap_idx(start, count as int),
                    forall|j: int| 0 <= j < count ==> m[#[trigger] wrap_idx(start, j)] != 0,
                    out@ == old(out)@ + puts_bytes(m, start, count as int),
                ensures
                    count <= 0x10000,
                    forall|j: int| 0 <= j < count ==> m[#[trigger] wrap_idx(start, j)] != 0,
                    out@ == old(out)@ + puts_bytes(m, start, count as int),
                    count < 0x10000 ==> m[wrap_idx(start, count as int)] == 0,
                decreases 0x10000 - count,
            {
                let ch = memory.read(addr);
                if ch == 0 {
                    break ;
                }
                out.push((ch & 0xFF) as u8);
                proof {
                    assert(out@ =~= old(out)@ + puts_bytes(m, start, count + 1));
                    lemma_wrap_step(start, count as int);
                    lemma_wrap_step(start, count + 1);
                    lemma_wrap_add_one(addr);
                }
                addr = addr.wrapping_add(1);
                count = count + 1;
            }
            proof {
                assert(puts_post(m, start, old(out)@, out@));
            }
        },
        0x23 => {
            // IN: prompt, read one character into R0, echo it.
            push_prompt(out);
            let c = input.unwrap();
            registers.set(0, c as u16);
            out.push(c);
            proof {
                assert(out@ =~= old(out)@ + prompt_msg() + seq![input.unwrap()]);
            }
        },
        0x24 => {
            // PUTSP: emit two packed characters per word, stopping at the
            // first zero byte, at most one full wrap of the address space.
            let start = registers.get(0);
            let mut addr = start;
            let mut count: usize = 0;
            let ghost m = memory@;
            proof {
                lemma_wrap_step(start, 0);
                assert(out@ =~= old(out)@ + putsp_bytes(m, start, 0));
            }
            while count < 0x10000
                invariant_except_break
                    out@ == old(out)@ + putsp_bytes(m, start, 2 * (count as int)),
                invariant
                    memory.wf(),
                    memory@ == m,
                    count <= 0x10000,
                    addr as int == wrap_idx(start, count as int),
                    forall|j: int|
                        0 <= j < count ==> word_low(m, #[trigger] wrap_idx(start, j)) != 0
                            && word_high(m, wrap_idx(start, j)) != 0,
                ensures
                    count <= 0x10000,
                    forall|j: int|
                        0 <= j < count ==> word_low(m, #[trigger] wrap_idx(start, j)) != 0
                            && word_high(m, wrap_idx(start, j)) != 0,
                    count == 0x10000 ==> out@ == old(out)@ + putsp_bytes(m, start, 2 * 0x10000int),
                    count < 0x10000 ==> {
                        ||| (word_low(m, wrap_idx(start, count as int)) == 0 && out@ == old(out)@
                            + putsp_bytes(m, start, 2 * (count as int)))
                        ||| (word_low(m, wrap_idx(start, count as int)) != 0 && word_high(
                            m,
                            wrap_idx(start, count as int),
                        ) == 0 && out@ == old(out)@ + putsp_bytes(m, start, 2 * (count as int) + 1))
                    },
                decreases 0x10000 - count,
            {
                let val = memory.read(addr);
                proof {
                    lemma_byte_bounds(val);
                }
                let ch1 = (val & 0xFF) as u8;
                if ch1 == 0 {
                    break ;
                }
                out.push(ch1);
                let ch2 = (val >> 8) as u8;
                if ch2 == 0 {
                    proof {
                        assert(out@ =~= old(out)@ + putsp_bytes(m, start, 2 * (count as int) + 1));
                    }
                    break ;
                }
                out.push(ch2);
                proof {
                    assert(out@ =~= old(out)@ + putsp_bytes(m, start, 2 * (count + 1)));
                    lemma_wrap_step(start, count as int);
                    lemma_wrap_step(start, count + 1);
                    lemma_wrap_add_one(addr);
                }
                addr = addr.wrapping_add(1);
                count = count + 1;
            }
            proof {
                assert(putsp_post(m, start, old(out)@, out@));
            }
        },
        0x25 => {
            // HALT: leave the notice and stop the run.
            push_halt_msg(out);
            return false;
        },
        _ => {
            // An unrecognized vector leaves a notice and is not fatal.
            push_unknown_msg(out, vector);
        },
    }

    true
}

} // verus!
