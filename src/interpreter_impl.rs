use vstd::prelude::*;
use vstd::slice::slice_subrange;
use vstd::string::StringSliceAdditionalSpecFns;
use vstd::utf8::valid_utf8;

use crate::interpreter::{
    run_spec, BFCommand, Config, Interpreter, InterpreterError, IoFailure, ProgramType,
    RunCompletePayload,
};
use crate::interpreters::{InterpreterSpecs, Negativity};

verus! {

/// The abstract state of a stepped interpreter.
pub struct MachineState {
    pub program: Seq<BFCommand>,
    pub cells: Seq<u8>,
    pub output: Seq<u8>,
    /// The bytes the input source still holds, next one first.
    pub input: Seq<u8>,
    pub ip: nat,
    pub ptr: nat,
    pub specs: InterpreterSpecs,
}

/// The state of a new interpreter: an empty program, a zeroed tape of
/// `cells_sz` cells, both pointers at 0, an empty output, and the given input
/// and policies.
pub open spec fn initial_machine(cells_sz: nat, input: Seq<u8>, specs: InterpreterSpecs) -> MachineState {
    MachineState {
        program: Seq::empty(),
        cells: Seq::new(cells_sz, |i: int| 0u8),
        output: Seq::empty(),
        input,
        ip: 0,
        ptr: 0,
        specs,
    }
}

/// The state of a new interpreter set up by `conf`.
pub open spec fn fresh_machine(conf: Config) -> MachineState {
    initial_machine(conf.cells_sz as nat, conf.input@, conf.specs)
}

/// What one step reports.
pub enum StepOutcome {
    /// The instruction ran and the program goes on.
    Continue,
    /// The program has ended.
    Done,
    /// The active policy forbade the instruction, for the reason given;
    /// nothing changed.
    IllegalState(Seq<char>),
    /// A read found the input empty; nothing changed.
    EndOfInput,
}

/// The tape holds at least one cell, and its length is that of a buffer in
/// memory. The tape never changes length, so every step keeps this.
pub open spec fn machine_wf(s: MachineState) -> bool {
    0 < s.cells.len() <= usize::MAX
}

/// Moves the instruction pointer to `next` and tells whether the program ended.
pub open spec fn goto(s: MachineState, next: nat) -> (MachineState, StepOutcome) {
    (
        MachineState { ip: next, ..s },
        if next >= s.program.len() {
            StepOutcome::Done
        } else {
            StepOutcome::Continue
        },
    )
}

/// Sets the current cell and moves to the next instruction.
pub open spec fn write_cell(s: MachineState, v: u8) -> (MachineState, StepOutcome) {
    goto(MachineState { cells: s.cells.update(s.ptr as int, v), ..s }, s.ip + 1)
}

/// Whether an instruction reads or writes the current cell.
pub open spec fn uses_cell(c: BFCommand) -> bool {
    !(c is NextPtr || c is PrevPtr)
}

/// The effect of one step on state `s`. An instruction pointer at or past the
/// end of the program changes nothing and reports `Done`. A pointer move
/// changes only the data pointer; under `Extend` it is not checked, and the
/// pointer wraps as a machine word. An instruction that uses the current cell
/// while the data pointer is off the tape fails. A begin-loop on a zero cell
/// jumps past its end-loop (a target past the program's end ends the
/// program); an end-loop on a non-zero cell jumps back to its begin-loop,
/// which tests the cell again.
pub open spec fn step_spec(s: MachineState) -> (MachineState, StepOutcome) {
    if s.ip >= s.program.len() {
        (s, StepOutcome::Done)
    } else if uses_cell(s.program[s.ip as int]) && s.ptr >= s.cells.len() {
        (s, StepOutcome::IllegalState("data pointer off the tape"@))
    } else {
        let cell = s.cells[s.ptr as int];
        let len = s.cells.len();
        match s.program[s.ip as int] {
            BFCommand::IncCell => if cell == 255 && !s.specs.wrapped_cell {
                (s, StepOutcome::IllegalState("cell overflow"@))
            } else {
                write_cell(s, ((cell + 1) % 256) as u8)
            },
            BFCommand::DecCell => if cell == 0 && !s.specs.wrapped_cell {
                (s, StepOutcome::IllegalState("cell underflow"@))
            } else {
                write_cell(s, ((cell + 255) % 256) as u8)
            },
            BFCommand::NextPtr => if s.ptr + 1 < len {
                goto(MachineState { ptr: s.ptr + 1, ..s }, s.ip + 1)
            } else {
                match s.specs.mem_ptr_negativity {
                    Negativity::NotAllowed => (s, StepOutcome::IllegalState("data pointer past the end of the tape"@)),
                    Negativity::WrapAround => goto(MachineState { ptr: 0, ..s }, s.ip + 1),
                    Negativity::Extend => goto(
                        MachineState {
                            ptr: if s.ptr >= usize::MAX {
                                0
                            } else {
                                s.ptr + 1
                            },
                            ..s
                        },
                        s.ip + 1,
                    ),
                }
            },
            BFCommand::PrevPtr => if s.ptr > 0 {
                goto(MachineState { ptr: (s.ptr - 1) as nat, ..s }, s.ip + 1)
            } else {
                match s.specs.mem_ptr_negativity {
                    Negativity::NotAllowed => (s, StepOutcome::IllegalState("data pointer before the start of the tape"@)),
                    Negativity::WrapAround => goto(
                        MachineState { ptr: (len - 1) as nat, ..s },
                        s.ip + 1,
                    ),
                    Negativity::Extend => goto(
                        MachineState { ptr: usize::MAX as nat, ..s },
                        s.ip + 1,
                    ),
                }
            },
            BFCommand::GetChar => if s.input.len() == 0 {
                (s, StepOutcome::EndOfInput)
            } else {
                write_cell(MachineState { input: s.input.drop_first(), ..s }, s.input[0])
            },
            BFCommand::PutChar => goto(
                MachineState { output: s.output.push(cell), ..s },
                s.ip + 1,
            ),
            BFCommand::BegLoop(t) => if cell == 0 {
                goto(
                    s,
                    if t < s.program.len() {
                        (t + 1) as nat
                    } else {
                        s.program.len()
                    },
                )
            } else {
                goto(s, s.ip + 1)
            },
            BFCommand::EndLoop(b) => if cell != 0 {
                goto(s, b as nat)
            } else {
                goto(s, s.ip + 1)
            },
        }
    }
}

/// Whether the result of a step reports `o`.
pub open spec fn step_result_is(r: Result<(), InterpreterError>, o: StepOutcome) -> bool {
    match o {
        StepOutcome::Continue => r is Ok,
        StepOutcome::Done => r is Err && r->Err_0 is InterpreterDone,
        StepOutcome::IllegalState(m) => r is Err && r->Err_0 is IllegalStateError
            && r->Err_0->IllegalStateError_0@ == m,
        StepOutcome::EndOfInput => r is Err && r->Err_0 == InterpreterError::IOError(
            IoFailure::EndOfInput,
        ),
    }
}

/// Whether the next step would read while the input is empty.
pub open spec fn awaits_input_spec(s: MachineState) -> bool {
    &&& s.ip < s.program.len()
    &&& s.program[s.ip as int] is GetChar
    &&& s.input.len() == 0
}

/// The part of `s` from `start` to `max_end`, with the end clamped to the
/// length of `s` and the start clamped to the end.
pub open spec fn window(s: Seq<u8>, start: usize, max_end: usize) -> Seq<u8> {
    let end = if max_end < s.len() {
        max_end as int
    } else {
        s.len() as int
    };
    let begin = if start < end {
        start as int
    } else {
        end
    };
    s.subrange(begin, end)
}

/// Asking for a window that ends beyond the sequence gives the rest of the
/// sequence from `start`: the end is clamped, and nothing fails.
pub proof fn lemma_window_clamps_end(s: Seq<u8>, start: usize, max_end: usize)
    requires
        s.len() <= max_end,
        start <= s.len(),
    ensures
        window(s, start, max_end) == s.subrange(start as int, s.len() as int),
{
}

/// The value held by `o`, or `d` where it holds none.
pub open spec fn or_default(o: Option<usize>, d: usize) -> usize {
    match o {
        Some(v) => v,
        None => d,
    }
}

/// The error std::str::from_utf8 returns for bytes that are not UTF-8.
#[verifier::external_type_specification]
#[verifier::external_body]
pub struct ExUtf8Error(std::str::Utf8Error);

/// Relies on std::str::from_utf8: it accepts exactly the valid UTF-8 byte
/// sequences, and the text it returns has those bytes as its encoding.
#[verifier::external_body]
fn utf8_text(bytes: &[u8]) -> (r: Result<&str, std::str::Utf8Error>)
    ensures
        r is Ok <==> valid_utf8(bytes@),
        r is Ok ==> r->Ok_0.spec_bytes() == bytes@,
{
    std::str::from_utf8(bytes)
}

/// The operations of an interpreter that runs a program one instruction at a time.
pub trait SteppedInterpreter: Sized {
    /// The interpreter's abstract state.
    spec fn machine(&self) -> MachineState;

    /// Replaces the program; the tape, the pointers, the input and the output stay.
    fn load(&mut self, program: ProgramType)
        ensures
            final(self).machine() == (MachineState { program: program@, ..old(self).machine() }),
    ;

    /// Runs the instruction at the instruction pointer and moves that pointer
    /// on, as `step_spec` says; a failure leaves the state as it was.
    fn next(&mut self) -> (r: Result<(), InterpreterError>)
        requires
            machine_wf(old(self).machine()),
        ensures
            machine_wf(final(self).machine()),
            final(self).machine() == step_spec(old(self).machine()).0,
            step_result_is(r, step_spec(old(self).machine()).1),
    ;

    /// Appends a byte to what the input source holds.
    fn feed_input(&mut self, byte: u8)
        ensures
            final(self).machine() == (MachineState {
                input: old(self).machine().input.push(byte),
                ..old(self).machine()
            }),
    ;

    /// Whether the next step reads a byte that the input does not yet hold.
    fn awaits_input(&self) -> (r: bool)
        ensures
            r == awaits_input_spec(self.machine()),
    ;

    /// The data pointer.
    fn current_cell_offset(&self) -> (r: usize)
        ensures
            r == self.machine().ptr,
    ;

    /// The length of the tape.
    fn cell_count(&self) -> (r: usize)
        ensures
            r == self.machine().cells.len(),
    ;

    /// The instruction pointer.
    fn current_instr_offset(&self) -> (r: usize)
        ensures
            r == self.machine().ip,
    ;

    /// The program held.
    fn get_program(&self) -> (r: &ProgramType)
        ensures
            r@ == self.machine().program,
    ;

    /// The cells from `start` to `max_end`, clamped to the tape.
    fn peek_cells_sliced(&self, start: usize, max_end: usize) -> (r: &[u8])
        ensures
            r@ == window(self.machine().cells, start, max_end),
            self.machine().cells.len() <= usize::MAX,
    ;

    /// The output bytes from `start` to `max_end`, clamped to the output.
    fn peek_output_sliced(&self, start: usize, max_end: usize) -> (r: &[u8])
        ensures
            r@ == window(self.machine().output, start, max_end),
            self.machine().output.len() <= usize::MAX,
    ;

    /// The cells from `start` (default 0) to `max_end` (default: no limit).
    fn peek_cells(&self, start: Option<usize>, max_end: Option<usize>) -> (r: &[u8])
        ensures
            r@ == window(self.machine().cells, or_default(start, 0), or_default(max_end, usize::MAX)),
            self.machine().cells.len() <= usize::MAX,
    {
        let s = match start {
            Some(v) => v,
            None => 0,
        };
        let e = match max_end {
            Some(v) => v,
            None => usize::MAX,
        };
        self.peek_cells_sliced(s, e)
    }

    /// The output from `start` (default 0) to `max_end` (default: no limit).
    fn peek_output(&self, start: Option<usize>, max_end: Option<usize>) -> (r: &[u8])
        ensures
            r@ == window(self.machine().output, or_default(start, 0), or_default(max_end, usize::MAX)),
            self.machine().output.len() <= usize::MAX,
    {
        let s = match start {
            Some(v) => v,
            None => 0,
        };
        let e = match max_end {
            Some(v) => v,
            None => usize::MAX,
        };
        self.peek_output_sliced(s, e)
    }

    /// The value of the current cell; the data pointer must be on the tape.
    fn current_cell_val(&self) -> (r: u8)
        requires
            self.machine().ptr < self.machine().cells.len(),
        ensures
            r == self.machine().cells[self.machine().ptr as int],
    {
        let curr = self.current_cell_offset();
        let n = self.cell_count();
        let cells = self.peek_cells_sliced(curr, n);
        cells[0]
    }

    /// The output from `start` to `max_end`, read as UTF-8 text; fails,
    /// leaving the interpreter as it is, where those bytes are not valid UTF-8.
    fn peek_output_str(&self, start: Option<usize>, max_end: Option<usize>) -> (r: Result<
        &str,
        std::str::Utf8Error,
    >)
        ensures
            r is Ok <==> valid_utf8(
                window(self.machine().output, or_default(start, 0), or_default(max_end, usize::MAX)),
            ),
            r is Ok ==> r->Ok_0.spec_bytes() == window(
                self.machine().output,
                or_default(start, 0),
                or_default(max_end, usize::MAX),
            ),
    {
        utf8_text(self.peek_output(start, max_end))
    }
}

/// An interpreter that runs the program as written, one instruction per step.
pub struct NaiveSteppedInterpreter {
    program: ProgramType,
    output: Vec<u8>,
    input: Vec<u8>,
    cells: Vec<u8>,
    instr_ptr: usize,
    ptr: usize,
    specs: InterpreterSpecs,
}

impl NaiveSteppedInterpreter {
    /// A new interpreter set up by `conf`.
    pub fn new(conf: Config) -> (r: NaiveSteppedInterpreter)
        requires
            conf.cells_sz > 0,
        ensures
            machine_wf(r.machine()),
            r.machine() == fresh_machine(conf),
    {
        let mut cells: Vec<u8> = Vec::new();
        let mut i: usize = 0;
        while i < conf.cells_sz
            invariant
                i <= conf.cells_sz,
                cells@ == Seq::new(i as nat, |k: int| 0u8),
            decreases conf.cells_sz - i,
        {
            cells.push(0);
            i = i + 1;
            assert(cells@ =~= Seq::new(i as nat, |k: int| 0u8));
        }
        let r = NaiveSteppedInterpreter {
            program: ProgramType::empty(),
            output: Vec::new(),
            input: conf.input,
            cells,
            instr_ptr: 0,
            ptr: 0,
            specs: conf.specs,
        };
        assert(r.machine().program =~= Seq::<BFCommand>::empty());
        r
    }

    /// The current cell, or `None` while the data pointer is off the tape.
    fn current_cell(&self) -> (r: Option<u8>)
        ensures
            r == if self.ptr < self.cells@.len() {
                Some(self.cells@[self.ptr as int])
            } else {
                None::<u8>
            },
    {
        if self.ptr < self.cells.len() {
            Some(self.cells[self.ptr])
        } else {
            None
        }
    }

    /// The failure of an instruction that the active policy forbids, with its reason.
    fn refusal(reason: &str) -> (r: InterpreterError)
        ensures
            r is IllegalStateError,
            r->IllegalStateError_0@ == reason@,
    {
        InterpreterError::IllegalStateError(reason.to_string())
    }

    /// The failure of an instruction that uses the cell while the data
    /// pointer is off the tape.
    fn off_tape() -> (r: InterpreterError)
        ensures
            r is IllegalStateError,
            r->IllegalStateError_0@ == "data pointer off the tape"@,
    {
        Self::refusal("data pointer off the tape")
    }

    /// Moves to instruction `next`, reporting whether the program ended.
    fn goto(&mut self, next: usize) -> (r: Result<(), InterpreterError>)
        ensures
            final(self).machine() == goto(old(self).machine(), next as nat).0,
            step_result_is(r, goto(old(self).machine(), next as nat).1),
    {
        self.instr_ptr = next;
        if next >= self.program.len() {
            Err(InterpreterError::InterpreterDone)
        } else {
            Ok(())
        }
    }
}

impl SteppedInterpreter for NaiveSteppedInterpreter {
    closed spec fn machine(&self) -> MachineState {
        MachineState {
            program: self.program@,
            cells: self.cells@,
            output: self.output@,
            input: self.input@,
            ip: self.instr_ptr as nat,
            ptr: self.ptr as nat,
            specs: self.specs,
        }
    }

    fn load(&mut self, program: ProgramType) {
        self.program = program;
    }

    fn next(&mut self) -> (r: Result<(), InterpreterError>) {
        let len = self.program.len();
        if self.instr_ptr >= len {
            return Err(InterpreterError::InterpreterDone);
        }
        let ip = self.instr_ptr;
        let p = self.ptr;
        let ncells = self.cells.len();
        match self.program.index(ip) {
            BFCommand::IncCell => {
                let cell = match self.current_cell() {
                    Some(v) => v,
                    None => return Err(Self::off_tape()),
                };
                if cell == 255 {
                    if !self.specs.wrapped_cell {
                        return Err(Self::refusal("cell overflow"));
                    }
                    self.cells.set(p, 0);
                } else {
                    self.cells.set(p, cell + 1);
                }
                self.goto(ip + 1)
            },
            BFCommand::DecCell => {
                let cell = match self.current_cell() {
                    Some(v) => v,
                    None => return Err(Self::off_tape()),
                };
                if cell == 0 {
                    if !self.specs.wrapped_cell {
                        return Err(Self::refusal("cell underflow"));
                    }
                    self.cells.set(p, 255);
                } else {
                    self.cells.set(p, cell - 1);
                }
                self.goto(ip + 1)
            },
            BFCommand::NextPtr => {
                if p < ncells && p + 1 < ncells {
                    self.ptr = p + 1;
                } else {
                    match self.specs.mem_ptr_negativity {
                        Negativity::NotAllowed => {
                            return Err(
                                Self::refusal("data pointer past the end of the tape"),
                            );
                        },
                        Negativity::WrapAround => {
                            self.ptr = 0;
                        },
                        Negativity::Extend => {
                            self.ptr = if p == usize::MAX {
                                0
                            } else {
                                p + 1
                            };
                        },
                    }
                }
                self.goto(ip + 1)
            },
            BFCommand::PrevPtr => {
                if p > 0 {
                    self.ptr = p - 1;
                } else {
                    match self.specs.mem_ptr_negativity {
                        Negativity::NotAllowed => {
                            return Err(
                                Self::refusal("data pointer before the start of the tape"),
                            );
                        },
                        Negativity::WrapAround => {
                            self.ptr = ncells - 1;
                        },
                        Negativity::Extend => {
                            self.ptr = usize::MAX;
                        },
                    }
                }
                self.goto(ip + 1)
            },
            BFCommand::GetChar => {
                if self.current_cell().is_none() {
                    return Err(Self::off_tape());
                }
                if self.input.len() == 0 {
                    return Err(InterpreterError::IOError(IoFailure::EndOfInput));
                }
                let b = self.input.remove(0);
                assert(self.input@ =~= old(self).input@.drop_first());
                self.cells.set(p, b);
                self.goto(ip + 1)
            },
            BFCommand::PutChar => {
                let cell = match self.current_cell() {
                    Some(v) => v,
                    None => return Err(Self::off_tape()),
                };
                self.output.push(cell);
                self.goto(ip + 1)
            },
            BFCommand::BegLoop(t) => {
                let cell = match self.current_cell() {
                    Some(v) => v,
                    None => return Err(Self::off_tape()),
                };
                if cell == 0 {
                    if t < len {
                        self.goto(t + 1)
                    } else {
                        self.goto(len)
                    }
                } else {
                    self.goto(ip + 1)
                }
            },
            BFCommand::EndLoop(b) => {
                let cell = match self.current_cell() {
                    Some(v) => v,
                    None => return Err(Self::off_tape()),
                };
                if cell != 0 {
                    self.goto(b)
                } else {
                    self.goto(ip + 1)
                }
            },
        }
    }

    fn feed_input(&mut self, byte: u8) {
        self.input.push(byte);
    }

    fn awaits_input(&self) -> (r: bool) {
        if self.instr_ptr < self.program.len() && self.input.len() == 0 {
            match self.program.index(self.instr_ptr) {
                BFCommand::GetChar => true,
                _ => false,
            }
        } else {
            false
        }
    }

    fn current_cell_offset(&self) -> (r: usize) {
        self.ptr
    }

    fn cell_count(&self) -> (r: usize) {
        self.cells.len()
    }

    fn current_instr_offset(&self) -> (r: usize) {
        self.instr_ptr
    }

    fn get_program(&self) -> (r: &ProgramType) {
        &self.program
    }

    fn peek_cells_sliced(&self, start: usize, max_end: usize) -> (r: &[u8]) {
        let end = if max_end < self.cells.len() {
            max_end
        } else {
            self.cells.len()
        };
        let begin = if start < end {
            start
        } else {
            end
        };
        slice_subrange(self.cells.as_slice(), begin, end)
    }

    fn peek_output_sliced(&self, start: usize, max_end: usize) -> (r: &[u8]) {
        let end = if max_end < self.output.len() {
            max_end
        } else {
            self.output.len()
        };
        let begin = if start < end {
            start
        } else {
            end
        };
        slice_subrange(self.output.as_slice(), begin, end)
    }
}

/// The interpreters that run a program one step at a time.
pub enum SteppedInterpreterEnum {
    NaiveSteppedInterpreter(NaiveSteppedInterpreter),
}

impl SteppedInterpreter for SteppedInterpreterEnum {
    open spec fn machine(&self) -> MachineState {
        match self {
            SteppedInterpreterEnum::NaiveSteppedInterpreter(i) => i.machine(),
        }
    }

    fn load(&mut self, program: ProgramType) {
        match self {
            SteppedInterpreterEnum::NaiveSteppedInterpreter(i) => i.load(program),
        }
    }

    fn next(&mut self) -> (r: Result<(), InterpreterError>) {
        match self {
            SteppedInterpreterEnum::NaiveSteppedInterpreter(i) => i.next(),
        }
    }

    fn feed_input(&mut self, byte: u8) {
        match self {
            SteppedInterpreterEnum::NaiveSteppedInterpreter(i) => i.feed_input(byte),
        }
    }

    fn awaits_input(&self) -> (r: bool) {
        match self {
            SteppedInterpreterEnum::NaiveSteppedInterpreter(i) => i.awaits_input(),
        }
    }

    fn current_cell_offset(&self) -> (r: usize) {
        match self {
            SteppedInterpreterEnum::NaiveSteppedInterpreter(i) => i.current_cell_offset(),
        }
    }

    fn cell_count(&self) -> (r: usize) {
        match self {
            SteppedInterpreterEnum::NaiveSteppedInterpreter(i) => i.cell_count(),
        }
    }

    fn current_instr_offset(&self) -> (r: usize) {
        match self {
            SteppedInterpreterEnum::NaiveSteppedInterpreter(i) => i.current_instr_offset(),
        }
    }

    fn get_program(&self) -> (r: &ProgramType) {
        match self {
            SteppedInterpreterEnum::NaiveSteppedInterpreter(i) => i.get_program(),
        }
    }

    fn peek_cells_sliced(&self, start: usize, max_end: usize) -> (r: &[u8]) {
        match self {
            SteppedInterpreterEnum::NaiveSteppedInterpreter(i) => i.peek_cells_sliced(
                start,
                max_end,
            ),
        }
    }

    fn peek_output_sliced(&self, start: usize, max_end: usize) -> (r: &[u8]) {
        match self {
            SteppedInterpreterEnum::NaiveSteppedInterpreter(i) => i.peek_output_sliced(
                start,
                max_end,
            ),
        }
    }
}

impl Interpreter for SteppedInterpreterEnum {
    open spec fn run_state(&self) -> MachineState {
        self.machine()
    }

    fn run_sync(&mut self, program: ProgramType, max_steps: usize) -> (r: Result<
        RunCompletePayload,
        InterpreterError,
    >) {
        let ghost start = MachineState { program: program@, ..self.machine() };
        self.load(program);
        assert(self.machine() == start);
        let mut left: usize = max_steps;
        loop
            invariant
                start == (MachineState { program: program@, ..old(self).run_state() }),
                machine_wf(self.machine()),
                run_spec(self.machine(), left as nat) == run_spec(start, max_steps as nat),
            decreases left,
        {
            if left == 0 {
                assert(run_spec(self.machine(), 0) == (self.machine(), StepOutcome::Continue));
                return Ok(RunCompletePayload::StepLimitReached);
            }
            let ghost pre = self.machine();
            let res = self.next();
            proof {
                let (t, o) = step_spec(pre);
                assert(run_spec(pre, left as nat) == if o is Continue {
                    run_spec(t, (left - 1) as nat)
                } else {
                    (t, o)
                });
            }
            match res {
                Ok(()) => {
                    left = left - 1;
                },
                Err(InterpreterError::InterpreterDone) => {
                    return Ok(RunCompletePayload::from(()));
                },
                Err(e) => {
                    return Err(e);
                },
            }
        }
    }
}

} // verus!
