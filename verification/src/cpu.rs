//! The fetch–decode–execute engine: a verified single step, and a bounded
//! run loop over it.
//!
//! A step fetches the word at the program counter, advances the counter,
//! decodes the top nibble and dispatches to the matching handler. Everything
//! a step can do to the machine is pinned by `step_rel`; a run is the
//! step relation iterated, pinned by `run_rel`.

use vstd::prelude::*;

use crate::memory::Memory;
use crate::opcode::{
    add_spec, and_spec, br_spec, decode, handle_add, handle_and, handle_br, handle_jmp,
    handle_jsr, handle_ld, handle_ldi, handle_ldr, handle_lea, handle_not, handle_st, handle_sti,
    handle_str, jmp_spec, jsr_spec, ld_spec, ldi_spec, ldr_spec, lea_spec, not_spec, st_spec,
    sti_spec, str_spec, OpCode,
};
use crate::register::{RegView, Registers};
use crate::trapcode::{handle_trap, trap_reads_input, trap_rel, trap_vector};

verus! {

/// How a single step left the machine: still running, stopped on an
/// unimplemented opcode (return-from-interrupt or the reserved opcode), or
/// halted by the HALT trap.
#[derive(Clone, Copy, PartialEq, Eq, Structural, Debug)]
pub enum StepOutcome {
    Running,
    Unimplemented(OpCode),
    Halted,
}

/// How a bounded run ended: halted by the HALT trap, stopped on an
/// unimplemented opcode, stopped because a reading trap found no more input
/// (input exhaustion is fatal to a run), or still running when the step
/// budget ran out.
#[derive(Clone, Copy, PartialEq, Eq, Structural, Debug)]
pub enum RunOutcome {
    Halted,
    Unimplemented(OpCode),
    OutOfInput,
    StepLimit,
}

/// Whether the next instruction is a trap that reads a character, so that
/// the caller must have an input byte ready before stepping.
pub open spec fn step_needs_input(m: Seq<u16>, r: RegView) -> bool {
    let instr = m[r.pc as int];
    decode(instr) == OpCode::TRAP && trap_reads_input(instr)
}

/// One full fetch–decode–execute step as a relation between the machine
/// before (`m0`, `r0`, `out0`) and after (`m1`, `r1`, `out1`): the fetched
/// word is the one at the program counter, the counter moves past it, and
/// the decoded opcode's handler — as its own spec function states it — does
/// the rest. RTI and the reserved opcode change nothing further and end the
/// run; a trap acts as `trap_rel` says and ends the run only for HALT.
pub open spec fn step_rel(
    m0: Seq<u16>,
    r0: RegView,
    input: Option<u8>,
    m1: Seq<u16>,
    r1: RegView,
    out0: Seq<u8>,
    out1: Seq<u8>,
    oc: StepOutcome,
) -> bool {
    let instr = m0[r0.pc as int];
    let rp = RegView { gprs: r0.gprs, pc: r0.pc.wrapping_add(1u16), cond: r0.cond };
    match decode(instr) {
        OpCode::BR => m1 == m0 && r1 == br_spec(rp, instr) && out1 == out0 && oc
            == StepOutcome::Running,
        OpCode::ADD => m1 == m0 && r1 == add_spec(rp, instr) && out1 == out0 && oc
            == StepOutcome::Running,
        OpCode::LD => m1 == m0 && r1 == ld_spec(rp, m0, instr) && out1 == out0 && oc
            == StepOutcome::Running,
        OpCode::ST => m1 == st_spec(rp, m0, instr) && r1 == rp && out1 == out0 && oc
            == StepOutcome::Running,
        OpCode::JSR => m1 == m0 && r1 == jsr_spec(rp, instr) && out1 == out0 && oc
            == StepOutcome::Running,
        OpCode::AND => m1 == m0 && r1 == and_spec(rp, instr) && out1 == out0 && oc
            == StepOutcome::Running,
        OpCode::LDR => m1 == m0 && r1 == ldr_spec(rp, m0, instr) && out1 == out0 && oc
            == StepOutcome::Running,
        OpCode::STR => m1 == str_spec(rp, m0, instr) && r1 == rp && out1 == out0 && oc
            == StepOutcome::Running,
        OpCode::RTI => m1 == m0 && r1 == rp && out1 == out0 && oc == StepOutcome::Unimplemented(
            OpCode::RTI,
        ),
        OpCode::NOT => m1 == m0 && r1 == not_spec(rp, instr) && out1 == out0 && oc
            == StepOutcome::Running,
        OpCode::LDI => m1 == m0 && r1 == ldi_spec(rp, m0, instr) && out1 == out0 && oc
            == StepOutcome::Running,
        OpCode::STI => m1 == sti_spec(rp, m0, instr) && r1 == rp && out1 == out0 && oc
            == StepOutcome::Running,
        OpCode::JMP => m1 == m0 && r1 == jmp_spec(rp, instr) && out1 == out0 && oc
            == StepOutcome::Running,
        OpCode::RES => m1 == m0 && r1 == rp && out1 == out0 && oc == StepOutcome::Unimplemented(
            OpCode::RES,
        ),
        OpCode::LEA => m1 == m0 && r1 == lea_spec(rp, instr) && out1 == out0 && oc
            == StepOutcome::Running,
        OpCode::TRAP => trap_rel(instr, m0, rp, input, m1, r1, out0, out1) && oc == (
        if trap_vector(instr) == 0x25 {
            StepOutcome::Halted
        } else {
            StepOutcome::Running
        }),
    }
}

/// Whether the next step would consume an input byte.
pub fn next_needs_input(memory: &Memory, registers: &Registers) -> (b: bool)
    requires
        memory.wf(),
    ensures
        b == step_needs_input(memory@, registers@),
{
    let instr = memory.read(registers.get_pc());
    let op = OpCode::from_instr(instr);
    let vector = instr & 0xFF;
    op == OpCode::TRAP && (vector == 0x20 || vector == 0x23)
}

/// Executes one fetch–decode–execute step.
///
/// The caller supplies an input byte when the next instruction is a reading
/// trap (`next_needs_input` tells it so); everything a trap prints lands in
/// `out`. The machine afterwards relates to the machine before exactly as
/// `step_rel` states.
pub fn step(
    memory: &mut Memory,
    registers: &mut Registers,
    input: Option<u8>,
    out: &mut Vec<u8>,
) -> (outcome: StepOutcome)
    requires
        old(memory).wf(),
        old(registers).wf(),
        step_needs_input(old(memory)@, old(registers)@) ==> input.is_some(),
    ensures
        final(memory).wf(),
        final(registers).wf(),
        step_rel(
            old(memory)@,
            old(registers)@,
            input,
            final(memory)@,
            final(registers)@,
            old(out)@,
            final(out)@,
            outcome,
        ),
{
    let pc = registers.get_pc();
    let instr = memory.read(pc);
    registers.increment_pc();

    let opcode = OpCode::from_instr(instr);
    match opcode {
        OpCode::ADD => {
            handle_add(instr, registers);
            StepOutcome::Running
        },
        OpCode::AND => {
            handle_and(instr, registers);
            StepOutcome::Running
        },
        OpCode::NOT => {
            handle_not(instr, registers);
            StepOutcome::Running
        },
        OpCode::BR => {
            handle_br(instr, registers);
            StepOutcome::Running
        },
        OpCode::JSR => {
            handle_jsr(instr, registers);
            StepOutcome::Running
        },
        OpCode::LD => {
            handle_ld(instr, memory, registers);
            StepOutcome::Running
        },
        OpCode::LDR => {
            handle_ldr(instr, memory, registers);
            StepOutcome::Running
        },
        OpCode::ST => {
            handle_st(instr, memory, registers);
            StepOutcome::Running
        },
        OpCode::JMP => {
            handle_jmp(instr, registers);
            StepOutcome::Running
        },
        OpCode::LEA => {
            handle_lea(instr, registers);
            StepOutcome::Running
        },
        OpCode::STI => {
            handle_sti(instr, memory, registers);
            StepOutcome::Running
        },
        OpCode::LDI => {
            handle_ldi(instr, memory, registers);
            StepOutcome::Running
        },
        OpCode::STR => {
            handle_str(instr, memory, registers);
            StepOutcome::Running
        },
        OpCode::RTI => StepOutcome::Unimplemented(OpCode::RTI),
        OpCode::RES => StepOutcome::Unimplemented(OpCode::RES),
        OpCode::TRAP => {
            let cont = handle_trap(instr, memory, registers, input, out);
            if cont {
                StepOutcome::Running
            } else {
                StepOutcome::Halted
            }
        },
    }
}

/// The input byte a step starting at (`m0`, `r0`) consumes from the script
/// `ins`: the script's head for a reading trap, nothing otherwise.
pub open spec fn run_input(m0: Seq<u16>, r0: RegView, ins: Seq<u8>) -> Option<u8> {
    if step_needs_input(m0, r0) {
        Some(ins[0])
    } else {
        Option::<u8>::None
    }
}

/// What is left of the script `ins` after that step.
pub open spec fn run_rest(m0: Seq<u16>, r0: RegView, ins: Seq<u8>) -> Seq<u8> {
    if step_needs_input(m0, r0) {
        ins.skip(1)
    } else {
        ins
    }
}

/// A bounded run as a relation: from (`m0`, `r0`) with the input script
/// `ins` and output so far `out0`, stepping up to `fuel` times reaches
/// (`m1`, `r1`, `out1`) with the stated outcome. Each step consumes the
/// script's next byte exactly when it is a reading trap; a reading trap
/// with the script exhausted ends the run as out-of-input.
pub open spec fn run_rel(
    m0: Seq<u16>,
    r0: RegView,
    ins: Seq<u8>,
    out0: Seq<u8>,
    m1: Seq<u16>,
    r1: RegView,
    out1: Seq<u8>,
    oc: RunOutcome,
    fuel: nat,
) -> bool
    decreases fuel,
{
    if fuel == 0 {
        oc == RunOutcome::StepLimit && m1 == m0 && r1 == r0 && out1 == out0
    } else if step_needs_input(m0, r0) && ins.len() == 0 {
        oc == RunOutcome::OutOfInput && m1 == m0 && r1 == r0 && out1 == out0
    } else {
        exists|mm: Seq<u16>, rr: RegView, oo: Seq<u8>, so: StepOutcome|
            {
                &&& #[trigger] step_rel(m0, r0, run_input(m0, r0, ins), mm, rr, out0, oo, so)
                &&& match so {
                    StepOutcome::Running => run_rel(
                        mm,
                        rr,
                        run_rest(m0, r0, ins),
                        oo,
                        m1,
                        r1,
                        out1,
                        oc,
                        (fuel - 1) as nat,
                    ),
                    StepOutcome::Unimplemented(op) => oc == RunOutcome::Unimplemented(op) && m1
                        == mm && r1 == rr && out1 == oo,
                    StepOutcome::Halted => oc == RunOutcome::Halted && m1 == mm && r1 == rr && out1
                        == oo,
                }
            }
    }
}

/// A run that made one step to (`mm`, `rr`, `oo`) and finished from there
/// is a run.
proof fn lemma_run_rel_intro(
    m0: Seq<u16>,
    r0: RegView,
    ins: Seq<u8>,
    out0: Seq<u8>,
    m1: Seq<u16>,
    r1: RegView,
    out1: Seq<u8>,
    oc: RunOutcome,
    fuel: nat,
    mm: Seq<u16>,
    rr: RegView,
    oo: Seq<u8>,
    so: StepOutcome,
)
    requires
        fuel > 0,
        !(step_needs_input(m0, r0) && ins.len() == 0),
        step_rel(m0, r0, run_input(m0, r0, ins), mm, rr, out0, oo, so),
        match so {
            StepOutcome::Running => run_rel(
                mm,
                rr,
                run_rest(m0, r0, ins),
                oo,
                m1,
                r1,
                out1,
                oc,
                (fuel - 1) as nat,
            ),
            StepOutcome::Unimplemented(op) => oc == RunOutcome::Unimplemented(op) && m1 == mm && r1
                == rr && out1 == oo,
            StepOutcome::Halted => oc == RunOutcome::Halted && m1 == mm && r1 == rr && out1 == oo,
        },
    ensures
        run_rel(m0, r0, ins, out0, m1, r1, out1, oc, fuel),
{
}

/// Runs from the script position `idx` with the given step budget.
fn run_from(
    memory: &mut Memory,
    registers: &mut Registers,
    inputs: &[u8],
    idx: usize,
    out: &mut Vec<u8>,
    fuel: usize,
) -> (outcome: RunOutcome)
    requires
        old(memory).wf(),
        old(registers).wf(),
        idx <= inputs@.len(),
    ensures
        final(memory).wf(),
        final(registers).wf(),
        run_rel(
            old(memory)@,
            old(registers)@,
            inputs@.skip(idx as int),
            old(out)@,
            final(memory)@,
            final(registers)@,
            final(out)@,
            outcome,
            fuel as nat,
        ),
    decreases fuel,
{
    if fuel == 0 {
        return RunOutcome::StepLimit;
    }
    let ghost ins = inputs@.skip(idx as int);
    let needs = next_needs_input(memory, registers);
    if needs && idx >= inputs.len() {
        return RunOutcome::OutOfInput;
    }
    let input: Option<u8> = if needs {
        Some(inputs[idx])
    } else {
        None
    };
    let idx2 = if needs {
        idx + 1
    } else {
        idx
    };
    proof {
        if needs {
            assert(ins[0] == inputs@[idx as int]);
            assert(ins.skip(1) =~= inputs@.skip(idx2 as int));
        }
    }
    let ghost m0 = memory@;
    let ghost r0 = registers@;
    let ghost out0 = out@;
    let so = step(memory, registers, input, out);
    let ghost mm = memory@;
    let ghost rr = registers@;
    let ghost oo = out@;
    match so {
        StepOutcome::Running => {
            let oc = run_from(memory, registers, inputs, idx2, out, fuel - 1);
            proof {
                assert(run_rest(m0, r0, ins) == inputs@.skip(idx2 as int));
                lemma_run_rel_intro(
                    m0,
                    r0,
                    ins,
                    out0,
                    memory@,
                    registers@,
                    out@,
                    oc,
                    fuel as nat,
                    mm,
                    rr,
                    oo,
                    StepOutcome::Running,
                );
            }
            oc
        },
        StepOutcome::Unimplemented(op) => {
            proof {
                lemma_run_rel_intro(
                    m0,
                    r0,
                    ins,
                    out0,
                    memory@,
                    registers@,
                    out@,
                    RunOutcome::Unimplemented(op),
                    fuel as nat,
                    mm,
                    rr,
                    oo,
                    StepOutcome::Unimplemented(op),
                );
            }
            RunOutcome::Unimplemented(op)
        },
        StepOutcome::Halted => {
            proof {
                lemma_run_rel_intro(
                    m0,
                    r0,
                    ins,
                    out0,
                    memory@,
                    registers@,
                    out@,
                    RunOutcome::Halted,
                    fuel as nat,
                    mm,
                    rr,
                    oo,
                    StepOutcome::Halted,
                );
            }
            RunOutcome::Halted
        },
    }
}

/// Runs the machine until it halts, stops on an unimplemented opcode, runs
/// out of input, or exhausts the step budget — whichever comes first. The
/// whole run relates to the starting machine as `run_rel` states, with
/// `inputs` as the script the reading traps consume in order.
pub fn run(
    memory: &mut Memory,
    registers: &mut Registers,
    inputs: &[u8],
    out: &mut Vec<u8>,
    max_steps: usize,
) -> (outcome: RunOutcome)
    requires
        old(memory).wf(),
        old(registers).wf(),
    ensures
        final(memory).wf(),
        final(registers).wf(),
        run_rel(
            old(memory)@,
            old(registers)@,
            inputs@,
            old(out)@,
            final(memory)@,
            final(registers)@,
            final(out)@,
            outcome,
            max_steps as nat,
        ),
{
    proof {
        assert(inputs@.skip(0) =~= inputs@);
    }
    run_from(memory, registers, inputs, 0, out, max_steps)
}

} // verus!
