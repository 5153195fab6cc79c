use vstd::prelude::*;

use crate::interpreter::{
    run_spec, Config, Interpreter, DEFAULT_CELLS, InterpreterError, ProgramType, RunCompletePayload,
};
use crate::interpreter_impl::{
    fresh_machine, initial_machine, machine_wf, step_spec, MachineState, NaiveSteppedInterpreter, StepOutcome,
    SteppedInterpreter, SteppedInterpreterEnum,
};
use crate::interpreter::BFCommand;

verus! {

/// The interpreters that can run a whole program.
pub enum InterpreterEnum {
    SteppedInterpreterEnum(SteppedInterpreterEnum),
}

impl Interpreter for InterpreterEnum {
    open spec fn run_state(&self) -> MachineState {
        match self {
            InterpreterEnum::SteppedInterpreterEnum(i) => i.run_state(),
        }
    }

    fn run_sync(&mut self, program: ProgramType, max_steps: usize) -> (r: Result<
        RunCompletePayload,
        InterpreterError,
    >) {
        match self {
            InterpreterEnum::SteppedInterpreterEnum(i) => i.run_sync(program, max_steps),
        }
    }
}

/// What a pointer move does at either end of the tape.
#[derive(Clone, Copy, Debug, PartialEq, Eq, Structural)]
pub enum Negativity {
    /// The move fails.
    NotAllowed,
    /// The pointer wraps to the other end of the tape.
    WrapAround,
    /// The move is not checked: the pointer may leave the tape, wrapping as a
    /// machine word below zero, and an instruction that uses the cell fails
    /// while it is off the tape. The tape keeps its length.
    Extend,
}

/// The arithmetic and pointer policies of an interpreter.
#[derive(Clone, Copy, Debug, PartialEq, Eq, Structural)]
pub struct InterpreterSpecs {
    /// Whether cell arithmetic wraps modulo 256; if not, it fails at the bounds.
    pub wrapped_cell: bool,
    /// What a pointer move past either end of the tape does.
    pub mem_ptr_negativity: Negativity,
}

impl InterpreterSpecs {
    /// The default policies: cells wrap, pointer moves past an end fail.
    pub open spec fn default_spec() -> InterpreterSpecs {
        InterpreterSpecs { wrapped_cell: true, mem_ptr_negativity: Negativity::NotAllowed }
    }

    /// The default policies.
    pub fn default() -> (r: InterpreterSpecs)
        ensures
            r == Self::default_spec(),
    {
        InterpreterSpecs { wrapped_cell: true, mem_ptr_negativity: Negativity::NotAllowed }
    }
}

/// An interpreter set up by `conf`, or by the default configuration where
/// none is given.
pub fn create_interpreter(conf: Option<Config>) -> (r: InterpreterEnum)
    requires
        conf is Some ==> conf->Some_0.cells_sz > 0,
    ensures
        machine_wf(r.run_state()),
        conf is Some ==> r.run_state() == fresh_machine(conf->Some_0),
        conf is None ==> r.run_state() == initial_machine(
            DEFAULT_CELLS as nat,
            Seq::empty(),
            InterpreterSpecs::default_spec(),
        ),
{
    let conf = match conf {
        Some(c) => c,
        None => Config::default(),
    };
    create_interpreter_conf(conf)
}

fn create_interpreter_conf(conf: Config) -> (r: InterpreterEnum)
    requires
        conf.cells_sz > 0,
    ensures
        machine_wf(r.run_state()),
        r.run_state() == fresh_machine(conf),
{
    InterpreterEnum::SteppedInterpreterEnum(
        SteppedInterpreterEnum::NaiveSteppedInterpreter(NaiveSteppedInterpreter::new(conf)),
    )
}

/// An increment followed by a decrement of the same cell leaves the tape as it
/// was, whenever the increment is allowed.
pub proof fn lemma_increment_decrement_round_trip(s: MachineState)
    requires
        s.ptr < s.cells.len(),
        s.ip + 1 < s.program.len(),
        s.program[s.ip as int] == BFCommand::IncCell,
        s.program[s.ip + 1int] == BFCommand::DecCell,
        s.specs.wrapped_cell || s.cells[s.ptr as int] < 255,
    ensures
        step_spec(s).1 == StepOutcome::Continue,
        step_spec(step_spec(s).0).0.cells == s.cells,
        step_spec(step_spec(s).0).0.ptr == s.ptr,
        step_spec(step_spec(s).0).0.ip == s.ip + 2,
{
    let t = step_spec(s).0;
    assert(t.cells[s.ptr as int] == ((s.cells[s.ptr as int] + 1) % 256) as u8);
    assert(step_spec(t).0.cells =~= s.cells);
}

/// Incrementing a cell that holds 255 gives 0 where cells wrap, and fails
/// with the tape unchanged where they do not.
pub proof fn lemma_increment_at_max(s: MachineState)
    requires
        s.ptr < s.cells.len(),
        s.ip < s.program.len(),
        s.program[s.ip as int] == BFCommand::IncCell,
        s.cells[s.ptr as int] == 255,
    ensures
        s.specs.wrapped_cell ==> step_spec(s).0.cells[s.ptr as int] == 0,
        !s.specs.wrapped_cell ==> step_spec(s).1 is IllegalState && step_spec(s).0
            == s,
{
}

/// A step never changes the tape's length, and a pointer move changes
/// neither the tape nor the output, under every policy.
pub proof fn lemma_step_keeps_tape(s: MachineState)
    ensures
        step_spec(s).0.cells.len() == s.cells.len(),
        s.ip < s.program.len() && (s.program[s.ip as int] is NextPtr
            || s.program[s.ip as int] is PrevPtr) ==> step_spec(s).0.cells == s.cells
            && step_spec(s).0.output == s.output,
{
}

} // verus!
