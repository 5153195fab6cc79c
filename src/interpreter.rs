use vstd::prelude::*;

use crate::interpreter_impl::{machine_wf, step_spec, MachineState, StepOutcome};
use crate::interpreters::InterpreterSpecs;

verus! {

/// One instruction of a program.
#[derive(Clone, Copy, Debug, PartialEq, Eq, Structural)]
pub enum BFCommand {
    /// Increments the current cell.
    IncCell,
    /// Decrements the current cell.
    DecCell,
    /// Moves the data pointer to the next cell.
    NextPtr,
    /// Moves the data pointer to the previous cell.
    PrevPtr,
    /// Reads one byte from the input into the current cell.
    GetChar,
    /// Writes the current cell to the output.
    PutChar,
    /// Begins a loop; holds the index of the matching `EndLoop`.
    BegLoop(usize),
    /// Ends a loop; holds the index of the matching `BegLoop`.
    EndLoop(usize),
}

/// The ways an input or output collaborator can fail.
#[derive(Clone, Copy, Debug, PartialEq, Eq, Structural)]
pub enum IoFailure {
    /// The input has no byte left to read.
    EndOfInput,
    /// Reading from the input source failed.
    Read,
    /// Writing to the output sink failed.
    Write,
}

/// Why a step, a run or a program construction did not simply go on.
#[derive(Debug)]
pub enum InterpreterError {
    /// An input or output collaborator failed.
    IOError(IoFailure),
    /// The active overflow or pointer policy forbids the operation.
    IllegalStateError(String),
    /// The program has run to its end; a signal rather than a failure.
    InterpreterDone,
    /// A program was built from a list whose loop brackets do not match.
    UnbalancedLoop,
}

impl From<()> for InterpreterError {
    /// The unit signal of a finished program.
    fn from(u: ()) -> (r: InterpreterError)
        ensures
            r is InterpreterDone,
    {
        InterpreterError::InterpreterDone
    }
}

impl vstd::std_specs::convert::FromSpecImpl<()> for InterpreterError {
    open spec fn obeys_from_spec() -> bool {
        true
    }

    open spec fn from_spec(u: ()) -> InterpreterError {
        InterpreterError::InterpreterDone
    }
}

/// What a run that stopped without error reports.
#[derive(Clone, Copy, Debug, PartialEq, Eq, Structural)]
pub enum RunCompletePayload {
    /// The program ran to its end.
    Finished,
    /// The step budget ran out before the program ended.
    StepLimitReached,
}

/// The tape length used when a configuration names none.
pub const DEFAULT_CELLS: usize = 0x8000;

/// How an interpreter is set up: its tape length, the bytes its input source
/// holds at the start, and its arithmetic and pointer policies.
pub struct Config {
    pub cells_sz: usize,
    pub input: Vec<u8>,
    pub specs: InterpreterSpecs,
}

impl Config {
    /// A configuration with the given parts; each one left out takes its
    /// default: a tape of `DEFAULT_CELLS` cells, an empty input, and the
    /// default policies.
    pub fn ctor(
        cells_sz: Option<usize>,
        input: Option<Vec<u8>>,
        specs: Option<InterpreterSpecs>,
    ) -> (r: Config)
        ensures
            r.cells_sz == match cells_sz {
                Some(n) => n,
                None => DEFAULT_CELLS,
            },
            r.input@ == match input {
                Some(v) => v@,
                None => Seq::<u8>::empty(),
            },
            r.specs == match specs {
                Some(p) => p,
                None => InterpreterSpecs::default_spec(),
            },
    {
        let cells_sz = match cells_sz {
            Some(n) => n,
            None => DEFAULT_CELLS,
        };
        let input = match input {
            Some(v) => v,
            None => Vec::new(),
        };
        let specs = match specs {
            Some(p) => p,
            None => InterpreterSpecs::default(),
        };
        Config { cells_sz, input, specs }
    }

    /// The default configuration.
    pub fn default() -> (r: Config)
        ensures
            r.cells_sz == DEFAULT_CELLS,
            r.input@ == Seq::<u8>::empty(),
            r.specs == InterpreterSpecs::default_spec(),
    {
        Self::ctor(None, None, None)
    }
}

impl From<()> for RunCompletePayload {
    /// The unit result of a finished run.
    fn from(u: ()) -> (r: RunCompletePayload)
        ensures
            r == RunCompletePayload::Finished,
    {
        RunCompletePayload::Finished
    }
}

impl vstd::std_specs::convert::FromSpecImpl<()> for RunCompletePayload {
    open spec fn obeys_from_spec() -> bool {
        true
    }

    open spec fn from_spec(u: ()) -> RunCompletePayload {
        RunCompletePayload::Finished
    }
}

/// A program: an immutable, indexable sequence of instructions whose loop
/// instructions are bound to their partners. `from_commands` is the only way
/// to build one with instructions, so every program keeps that pairing.
pub struct ProgramType {
    commands: Vec<BFCommand>,
}

impl View for ProgramType {
    type V = Seq<BFCommand>;

    closed spec fn view(&self) -> Seq<BFCommand> {
        self.commands@
    }
}

impl ProgramType {
    /// Every begin-loop is paired with a later end-loop, and loops nest.
    #[verifier::type_invariant]
    spec fn loops_matched(self) -> bool {
        loops_paired(self.commands@) && loops_nested(self.commands@)
    }

    /// The program with no instructions.
    pub fn empty() -> (r: ProgramType)
        ensures
            r@ == Seq::<BFCommand>::empty(),
    {
        ProgramType { commands: Vec::new() }
    }

    /// The number of instructions; the loops of the program are paired and nested.
    pub fn len(&self) -> (r: usize)
        ensures
            r == self@.len(),
            loops_paired(self@),
            loops_nested(self@),
    {
        proof {
            use_type_invariant(self);
        }
        self.commands.len()
    }

    /// The instruction at position `index`.
    pub fn index(&self, index: usize) -> (r: BFCommand)
        requires
            index < self@.len(),
        ensures
            r == self@[index as int],
    {
        self.commands[index]
    }
}

/// Whether an instruction begins a loop.
pub open spec fn is_open(c: BFCommand) -> bool {
    c is BegLoop
}

/// Whether an instruction ends a loop.
pub open spec fn is_close(c: BFCommand) -> bool {
    c is EndLoop
}

/// The loop nesting depth after the first `n` instructions: begins minus ends.
pub open spec fn depth(s: Seq<BFCommand>, n: int) -> int
    decreases n,
{
    if n <= 0 {
        0
    } else {
        depth(s, n - 1) + if is_open(s[n - 1]) {
            1int
        } else if is_close(s[n - 1]) {
            -1int
        } else {
            0int
        }
    }
}

/// Whether the loop brackets of `s` are properly nested: no prefix closes more
/// loops than it opens, and the whole sequence closes all it opens.
pub open spec fn balanced(s: Seq<BFCommand>) -> bool {
    &&& depth(s, s.len() as int) == 0
    &&& forall|i: int| 0 <= i <= s.len() ==> #[trigger] depth(s, i) >= 0
}

/// Whether the end-loop at `j` is the syntactic partner of the begin-loop at
/// `i`: every prefix of the instructions between them opens at least as many
/// loops as it closes, and all of them together balance.
pub open spec fn closes(s: Seq<BFCommand>, i: int, j: int) -> bool {
    &&& 0 <= i < j < s.len()
    &&& is_open(s[i])
    &&& is_close(s[j])
    &&& depth(s, j + 1) == depth(s, i)
    &&& forall|m: int| i < m <= j ==> #[trigger] depth(s, m) > depth(s, i)
}

/// Whether two instructions are of the same kind, loop targets aside.
pub open spec fn same_kind(a: BFCommand, b: BFCommand) -> bool {
    match a {
        BFCommand::BegLoop(_) => b is BegLoop,
        BFCommand::EndLoop(_) => b is EndLoop,
        _ => a == b,
    }
}

/// Whether every loop instruction of `p` is paired with its partner: a begin
/// at `i` names an end at a later `j`, which names `i` back.
pub open spec fn loops_paired(p: Seq<BFCommand>) -> bool {
    &&& forall|i: int|
        0 <= i < p.len() && (#[trigger] p[i]) is BegLoop ==> {
            let j = p[i]->BegLoop_0 as int;
            &&& i < j < p.len()
            &&& p[j] == BFCommand::EndLoop(i as usize)
        }
    &&& forall|j: int|
        0 <= j < p.len() && (#[trigger] p[j]) is EndLoop ==> {
            let i = p[j]->EndLoop_0 as int;
            &&& 0 <= i < j
            &&& p[i] == BFCommand::BegLoop(j as usize)
        }
}

/// Whether no two loops of `p` overlap without one holding the other.
pub open spec fn loops_nested(p: Seq<BFCommand>) -> bool {
    forall|i: int, k: int|
        0 <= i < k < p.len() && (#[trigger] p[i]) is BegLoop && (#[trigger] p[k]) is BegLoop && k
            < p[i]->BegLoop_0 ==> p[k]->BegLoop_0 < p[i]->BegLoop_0
}

/// Whether `p` is `raw` with each loop instruction bound to its syntactic partner.
pub open spec fn matched_program(raw: Seq<BFCommand>, p: Seq<BFCommand>) -> bool {
    &&& p.len() == raw.len()
    &&& forall|i: int| 0 <= i < p.len() ==> same_kind(#[trigger] raw[i], p[i])
    &&& loops_paired(p)
    &&& loops_nested(p)
}

impl ProgramType {
    /// Builds a program from a linear instruction list, binding each loop
    /// bracket to its partner by a stack-based scan. The loop targets carried
    /// by `raw` are ignored and computed anew. Fails with `UnbalancedLoop`
    /// exactly when the brackets are not properly nested.
    pub fn from_commands(raw: Vec<BFCommand>) -> (r: Result<ProgramType, InterpreterError>)
        ensures
            r is Ok <==> balanced(raw@),
            r is Err ==> r->Err_0 is UnbalancedLoop,
            r is Ok ==> matched_program(raw@, r->Ok_0@),
            r is Ok ==> forall|i: int|
                0 <= i < r->Ok_0@.len() && (#[trigger] r->Ok_0@[i]) is BegLoop ==> {
                    let j = r->Ok_0@[i]->BegLoop_0 as int;
                    i < j < r->Ok_0@.len() && r->Ok_0@[j] is EndLoop && closes(raw@, i, j)
                },
    {
        let n = raw.len();
        let mut out: Vec<BFCommand> = Vec::new();
        let mut stack: Vec<usize> = Vec::new();
        let mut pos: usize = 0;
        while pos < n
            invariant
                n == raw@.len(),
                pos <= n,
                out@.len() == pos,
                forall|i: int| 0 <= i < pos ==> same_kind(#[trigger] raw@[i], out@[i]),
                forall|i: int| 0 <= i <= pos ==> #[trigger] depth(raw@, i) >= 0,
                stack@.len() == depth(raw@, pos as int),
                forall|k: int|
                    0 <= k < stack@.len() ==> depth(raw@, #[trigger] stack@[k] as int) == k,
                forall|k: int, m: int|
                    0 <= k < stack@.len() && #[trigger] stack@[k] < m <= pos ==> #[trigger] depth(
                        raw@,
                        m,
                    ) > k,
                forall|k: int| 0 <= k < stack@.len() ==> #[trigger] stack@[k] < pos,
                forall|k: int, l: int| 0 <= k < l < stack@.len() ==> stack@[k] < stack@[l],
                forall|k: int|
                    0 <= k < stack@.len() ==> out@[#[trigger] stack@[k] as int]
                        == BFCommand::BegLoop(0),
                // every begin not on the stack is closed: bound to a later end
                forall|i: int|
                    0 <= i < pos && (#[trigger] out@[i]) is BegLoop ==> (i < out@[i]->BegLoop_0
                        || exists|k: int| 0 <= k < stack@.len() && stack@[k] == i),
                forall|i: int|
                    0 <= i < pos && (#[trigger] out@[i]) is BegLoop && i < out@[i]->BegLoop_0 ==> {
                        let j = out@[i]->BegLoop_0 as int;
                        &&& j < pos
                        &&& out@[j] == BFCommand::EndLoop(i as usize)
                        &&& closes(raw@, i, j)
                    },
                forall|j: int|
                    0 <= j < pos && (#[trigger] out@[j]) is EndLoop ==> {
                        let i = out@[j]->EndLoop_0 as int;
                        &&& 0 <= i < j
                        &&& out@[i] == BFCommand::BegLoop(j as usize)
                    },
                // closed loops do not cross one another
                forall|i: int, k: int|
                    0 <= i < k < pos && (#[trigger] out@[i]) is BegLoop && (#[trigger] out@[k]) is BegLoop
                        && i < out@[i]->BegLoop_0 && k < out@[i]->BegLoop_0 ==> k < out@[k]->BegLoop_0
                        && out@[k]->BegLoop_0 < out@[i]->BegLoop_0,
                // no open begin lies inside a closed loop
                forall|i: int, k: int|
                    0 <= i < pos && 0 <= k < stack@.len() && (#[trigger] out@[i]) is BegLoop && i
                        < out@[i]->BegLoop_0 ==> !(i < #[trigger] stack@[k] < out@[i]->BegLoop_0),
            decreases n - pos,
        {
            let c = raw[pos];
            match c {
                BFCommand::BegLoop(_) => {
                    let ghost old_stack = stack@;
                    out.push(BFCommand::BegLoop(0));
                    stack.push(pos);
                    proof {
                        assert(stack@[stack@.len() - 1] == pos);
                        assert forall|i: int|
                            0 <= i < pos + 1 && (#[trigger] out@[i]) is BegLoop && !(i
                                < out@[i]->BegLoop_0) implies exists|k: int|
                            0 <= k < stack@.len() && stack@[k] == i by {
                            if i < pos {
                                let k = choose|k: int| 0 <= k < old_stack.len() && old_stack[k] == i;
                                assert(stack@[k] == i);
                            } else {
                                assert(stack@[stack@.len() - 1] == i);
                            }
                        }
                    }
                },
                BFCommand::EndLoop(_) => {
                    if stack.len() == 0 {
                        proof {
                            assert(depth(raw@, pos + 1) == -1);
                        }
                        return Err(InterpreterError::UnbalancedLoop);
                    }
                    let ghost old_stack = stack@;
                    let ghost old_out = out@;
                    let top = stack.pop().unwrap();
                    out.set(top, BFCommand::BegLoop(pos));
                    out.push(BFCommand::EndLoop(top));
                    proof {
                        assert(top == old_stack[old_stack.len() - 1]);
                        assert(depth(raw@, top as int) == old_stack.len() - 1);
                        assert(depth(raw@, pos + 1) == old_stack.len() - 1);
                        assert(closes(raw@, top as int, pos as int));
                        assert forall|i: int|
                            0 <= i < pos + 1 && (#[trigger] out@[i]) is BegLoop && !(i
                                < out@[i]->BegLoop_0) implies exists|k: int|
                            0 <= k < stack@.len() && stack@[k] == i by {
                            assert(i != top && i < pos);
                            assert(old_out[i] == out@[i]);
                            let k = choose|k: int| 0 <= k < old_stack.len() && old_stack[k] == i;
                            assert(k != old_stack.len() - 1);
                            assert(stack@[k] == i);
                        }
                    }
                },
                _ => {
                    out.push(c);
                },
            }
            assert(depth(raw@, pos + 1) == stack@.len());
            pos = pos + 1;
        }
        if stack.len() > 0 {
            return Err(InterpreterError::UnbalancedLoop);
        }
        Ok(ProgramType { commands: out })
    }
}

/// The state and the outcome after at most `n` steps from `s`: stepping stops
/// at the first step that does not report `Continue`; `Continue` as the
/// outcome means that the budget ran out first.
pub open spec fn run_spec(s: MachineState, n: nat) -> (MachineState, StepOutcome)
    decreases n,
{
    if n == 0 {
        (s, StepOutcome::Continue)
    } else {
        let (t, o) = step_spec(s);
        if o is Continue {
            run_spec(t, (n - 1) as nat)
        } else {
            (t, o)
        }
    }
}

/// Whether the result of a run reports the outcome `o` of `run_spec`.
pub open spec fn run_result_is(r: Result<RunCompletePayload, InterpreterError>, o: StepOutcome) -> bool {
    match o {
        StepOutcome::Continue => r == Ok::<RunCompletePayload, InterpreterError>(
            RunCompletePayload::StepLimitReached,
        ),
        StepOutcome::Done => r == Ok::<RunCompletePayload, InterpreterError>(
            RunCompletePayload::Finished,
        ),
        StepOutcome::IllegalState(m) => r is Err && r->Err_0 is IllegalStateError
            && r->Err_0->IllegalStateError_0@ == m,
        StepOutcome::EndOfInput => r is Err && r->Err_0 == InterpreterError::IOError(
            IoFailure::EndOfInput,
        ),
    }
}

/// An interpreter that can run a whole program.
pub trait Interpreter: Sized {
    /// The interpreter's abstract state.
    spec fn run_state(&self) -> MachineState;

    /// Loads `program` and steps it until it ends, fails, or has taken
    /// `max_steps` steps. The end of the program gives `Finished`; a spent
    /// budget gives `StepLimitReached`; any other signal is returned as the error.
    fn run_sync(&mut self, program: ProgramType, max_steps: usize) -> (r: Result<
        RunCompletePayload,
        InterpreterError,
    >)
        requires
            machine_wf(old(self).run_state()),
        ensures
            final(self).run_state() == run_spec(
                MachineState { program: program@, ..old(self).run_state() },
                max_steps as nat,
            ).0,
            run_result_is(
                r,
                run_spec(
                    MachineState { program: program@, ..old(self).run_state() },
                    max_steps as nat,
                ).1,
            ),
    ;
}

} // verus!
