use bf_interpreter::interpreter::{
    BFCommand, Config, Interpreter, InterpreterError, IoFailure, ProgramType, RunCompletePayload,
    DEFAULT_CELLS,
};
use bf_interpreter::interpreter_impl::{
    NaiveSteppedInterpreter, SteppedInterpreter, SteppedInterpreterEnum,
};
use bf_interpreter::interpreters::{create_interpreter, InterpreterEnum, InterpreterSpecs, Negativity};

fn cmds(src: &str) -> Vec<BFCommand> {
    src.chars()
        .filter_map(|c| match c {
            '+' => Some(BFCommand::IncCell),
            '-' => Some(BFCommand::DecCell),
            '>' => Some(BFCommand::NextPtr),
            '<' => Some(BFCommand::PrevPtr),
            ',' => Some(BFCommand::GetChar),
            '.' => Some(BFCommand::PutChar),
            '[' => Some(BFCommand::BegLoop(0)),
            ']' => Some(BFCommand::EndLoop(0)),
            _ => None,
        })
        .collect()
}

fn program(src: &str) -> ProgramType {
    match ProgramType::from_commands(cmds(src)) {
        Ok(p) => p,
        Err(_) => panic!("unbalanced test program"),
    }
}

fn commands_of(p: &ProgramType) -> Vec<BFCommand> {
    (0..p.len()).map(|i| p.index(i)).collect()
}

fn stepper(cells: usize, input: Vec<u8>, wrapped: bool, neg: Negativity) -> NaiveSteppedInterpreter {
    let specs = InterpreterSpecs { wrapped_cell: wrapped, mem_ptr_negativity: neg };
    NaiveSteppedInterpreter::new(Config::ctor(Some(cells), Some(input), Some(specs)))
}

fn run_to_end(it: &mut NaiveSteppedInterpreter) -> Result<(), InterpreterError> {
    for _ in 0..100_000 {
        match it.next() {
            Ok(()) => {}
            Err(InterpreterError::InterpreterDone) => return Ok(()),
            Err(e) => return Err(e),
        }
    }
    panic!("program did not end")
}

#[test]
fn nested_loops_get_forward_targets() {
    let p = program("+[>[-]<-]");
    let c = commands_of(&p);
    assert_eq!(c[1], BFCommand::BegLoop(8));
    assert_eq!(c[3], BFCommand::BegLoop(5));
    assert_eq!(c[5], BFCommand::EndLoop(3));
    assert_eq!(c[8], BFCommand::EndLoop(1));
    for (i, cmd) in c.iter().enumerate() {
        if let BFCommand::BegLoop(j) = cmd {
            assert!(*j > i);
            assert!(matches!(c[*j], BFCommand::EndLoop(_)));
        }
    }
}

#[test]
fn sibling_loops_are_matched_separately() {
    let c = commands_of(&program("[][]"));
    assert_eq!(
        c,
        vec![
            BFCommand::BegLoop(1),
            BFCommand::EndLoop(0),
            BFCommand::BegLoop(3),
            BFCommand::EndLoop(2)
        ]
    );
}

#[test]
fn unmatched_brackets_are_rejected() {
    for src in ["[", "]", "[[]", "[]]", "][", "+[-"] {
        assert!(matches!(
            ProgramType::from_commands(cmds(src)),
            Err(InterpreterError::UnbalancedLoop)
        ));
    }
}

#[test]
fn empty_program_builds() {
    assert_eq!(program("").len(), 0);
}

#[test]
fn increment_then_decrement_restores_cell() {
    let mut it = stepper(4, vec![41], true, Negativity::NotAllowed);
    it.load(program(",+-."));
    assert!(it.next().is_ok());
    assert_eq!(it.current_cell_val(), 41);
    assert!(it.next().is_ok());
    assert_eq!(it.current_cell_val(), 42);
    assert!(it.next().is_ok());
    assert_eq!(it.current_cell_val(), 41);
    assert_eq!(it.current_cell_offset(), 0);
}

#[test]
fn increment_at_255_wraps_to_zero() {
    let mut it = stepper(4, vec![255], true, Negativity::NotAllowed);
    it.load(program(",+."));
    assert!(it.next().is_ok());
    assert_eq!(it.current_cell_val(), 255);
    assert!(it.next().is_ok());
    assert_eq!(it.current_cell_val(), 0);
}

#[test]
fn increment_at_255_fails_without_wrapping() {
    let mut it = stepper(4, vec![255], false, Negativity::NotAllowed);
    it.load(program(",+."));
    assert!(it.next().is_ok());
    assert!(matches!(it.next(), Err(InterpreterError::IllegalStateError(_))));
    assert_eq!(it.current_cell_val(), 255);
    assert_eq!(it.current_instr_offset(), 1);
}

#[test]
fn decrement_at_zero() {
    let mut it = stepper(4, vec![], true, Negativity::NotAllowed);
    it.load(program("-."));
    assert!(it.next().is_ok());
    assert_eq!(it.current_cell_val(), 255);
    let mut it = stepper(4, vec![], false, Negativity::NotAllowed);
    it.load(program("-."));
    assert!(matches!(it.next(), Err(InterpreterError::IllegalStateError(_))));
    assert_eq!(it.current_cell_val(), 0);
}

#[test]
fn three_increments_then_write_outputs_three() {
    let mut it = stepper(8, vec![], true, Negativity::NotAllowed);
    it.load(program("+++."));
    assert!(run_to_end(&mut it).is_ok());
    assert_eq!(it.peek_output(None, None), &[3u8][..]);
}

#[test]
fn loop_on_zero_cell_is_skipped() {
    let mut it = stepper(8, vec![], true, Negativity::NotAllowed);
    it.load(program("[-]"));
    assert!(matches!(it.next(), Err(InterpreterError::InterpreterDone)));
    assert_eq!(it.current_instr_offset(), 3);
    assert_eq!(it.current_cell_val(), 0);
    assert!(matches!(it.next(), Err(InterpreterError::InterpreterDone)));
    assert_eq!(it.current_cell_val(), 0);
}

#[test]
fn loop_repeats_until_cell_is_zero() {
    let mut it = stepper(8, vec![], true, Negativity::NotAllowed);
    it.load(program("+++[>++<-]>."));
    assert!(run_to_end(&mut it).is_ok());
    assert_eq!(it.peek_output(None, None), &[6u8][..]);
    assert_eq!(it.peek_cells(Some(0), Some(2)), &[0u8, 6][..]);
}

#[test]
fn read_then_write_echoes_input() {
    let mut it = stepper(8, vec![65], true, Negativity::NotAllowed);
    it.load(program(",."));
    assert!(run_to_end(&mut it).is_ok());
    assert_eq!(it.peek_output(None, None), &[65u8][..]);
    assert_eq!(it.current_cell_val(), 65);
}

#[test]
fn read_on_empty_input_fails() {
    let mut it = stepper(8, vec![], true, Negativity::NotAllowed);
    it.load(program(",."));
    assert!(it.awaits_input());
    assert!(matches!(it.next(), Err(InterpreterError::IOError(IoFailure::EndOfInput))));
    assert_eq!(it.current_instr_offset(), 0);
    it.feed_input(7);
    assert!(!it.awaits_input());
    assert!(it.next().is_ok());
    assert_eq!(it.current_cell_val(), 7);
}

#[test]
fn peek_cells_clamps_to_tape() {
    let mut it = stepper(4, vec![9], true, Negativity::NotAllowed);
    it.load(program(","));
    let _ = it.next();
    assert_eq!(it.peek_cells(Some(0), Some(100)), &[9u8, 0, 0, 0][..]);
    assert_eq!(it.peek_cells(Some(2), None), &[0u8, 0][..]);
    assert_eq!(it.peek_cells(Some(10), Some(100)).len(), 0);
    assert_eq!(it.peek_cells(None, Some(1)), &[9u8][..]);
    assert_eq!(it.peek_output(Some(0), Some(5)).len(), 0);
}

#[test]
fn pointer_policies_at_the_tape_ends() {
    let mut it = stepper(2, vec![], true, Negativity::NotAllowed);
    it.load(program("<."));
    assert!(matches!(it.next(), Err(InterpreterError::IllegalStateError(_))));
    assert_eq!(it.current_cell_offset(), 0);
    it.load(program(">>."));
    assert!(it.next().is_ok());
    assert_eq!(it.current_cell_offset(), 1);
    assert!(matches!(it.next(), Err(InterpreterError::IllegalStateError(_))));

    let mut it = stepper(3, vec![], true, Negativity::WrapAround);
    it.load(program("<.>."));
    assert!(it.next().is_ok());
    assert_eq!(it.current_cell_offset(), 2);
    let _ = it.next();
    assert!(it.next().is_ok());
    assert_eq!(it.current_cell_offset(), 0);

    let mut it = stepper(2, vec![], true, Negativity::Extend);
    it.load(program(">>+."));
    assert!(it.next().is_ok());
    assert!(it.next().is_ok());
    assert_eq!(it.current_cell_offset(), 2);
    assert!(matches!(it.next(), Err(InterpreterError::IllegalStateError(_))));
    assert_eq!(it.cell_count(), 2);
    assert_eq!(it.peek_cells(None, None), &[0u8, 0][..]);

    let mut it = stepper(2, vec![], true, Negativity::Extend);
    it.load(program("<>+<.>."));
    assert!(it.next().is_ok());
    assert_eq!(it.current_cell_offset(), usize::MAX);
    assert!(it.next().is_ok());
    assert_eq!(it.current_cell_offset(), 0);
    assert!(it.next().is_ok());
    assert!(it.next().is_ok());
    assert!(matches!(it.next(), Err(InterpreterError::IllegalStateError(_))));
    assert!(it.peek_output(None, None).is_empty());
    assert_eq!(it.cell_count(), 2);
    assert_eq!(it.peek_cells(None, None), &[1u8, 0][..]);
}

#[test]
fn load_keeps_tape_and_pointers() {
    let mut it = stepper(4, vec![], true, Negativity::NotAllowed);
    it.load(program(">++."));
    for _ in 0..3 {
        assert!(it.next().is_ok());
    }
    it.load(program("+."));
    assert_eq!(it.current_cell_offset(), 1);
    assert_eq!(it.current_instr_offset(), 3);
    assert!(matches!(it.next(), Err(InterpreterError::InterpreterDone)));
    assert_eq!(it.current_cell_val(), 2);
    assert_eq!(it.get_program().len(), 2);
}

#[test]
fn output_as_text() {
    let mut it = stepper(4, vec![104, 105, 0xff], true, Negativity::NotAllowed);
    it.load(program(",.,.,."));
    assert!(run_to_end(&mut it).is_ok());
    assert_eq!(it.peek_output_str(None, Some(2)), Ok("hi"));
    assert_eq!(it.peek_output_str(Some(1), Some(2)), Ok("i"));
    assert!(it.peek_output_str(None, None).is_err());
    assert_eq!(it.peek_output_str(Some(3), None), Ok(""));
}

#[test]
fn run_sync_reports_each_end() {
    let mut it = create_interpreter(None);
    assert!(matches!(it.run_sync(program("+++."), 100), Ok(RunCompletePayload::Finished)));
    let mut it = create_interpreter(None);
    assert!(matches!(it.run_sync(program("+[]"), 50), Ok(RunCompletePayload::StepLimitReached)));
    let mut it = create_interpreter(None);
    assert!(matches!(
        it.run_sync(program(","), 50),
        Err(InterpreterError::IOError(IoFailure::EndOfInput))
    ));
    let specs = InterpreterSpecs { wrapped_cell: true, mem_ptr_negativity: Negativity::NotAllowed };
    let mut it = create_interpreter(Some(Config::ctor(Some(1), Some(vec![65]), Some(specs))));
    assert!(matches!(it.run_sync(program(",.>"), 50), Err(InterpreterError::IllegalStateError(_))));
    let InterpreterEnum::SteppedInterpreterEnum(SteppedInterpreterEnum::NaiveSteppedInterpreter(n)) = &it;
    assert_eq!(n.peek_output(None, None), &[65u8][..]);
}

#[test]
fn default_configuration() {
    let c = Config::default();
    assert_eq!(c.cells_sz, DEFAULT_CELLS);
    assert_eq!(c.cells_sz, 32768);
    assert!(c.input.is_empty());
    assert!(c.specs.wrapped_cell);
    assert_eq!(c.specs.mem_ptr_negativity, Negativity::NotAllowed);
    let it = NaiveSteppedInterpreter::new(c);
    assert_eq!(it.cell_count(), 32768);
    assert_eq!(it.current_cell_offset(), 0);
    assert_eq!(it.peek_cells(Some(32766), None), &[0u8, 0][..]);
}

#[test]
fn unit_converts_to_finished_and_done() {
    assert_eq!(RunCompletePayload::from(()), RunCompletePayload::Finished);
    assert!(matches!(InterpreterError::from(()), InterpreterError::InterpreterDone));
}

#[test]
fn refusals_name_their_reason() {
    let mut it = stepper(1, vec![255], false, Negativity::NotAllowed);
    it.load(program(",+"));
    assert!(it.next().is_ok());
    match it.next() {
        Err(InterpreterError::IllegalStateError(m)) => assert_eq!(m, "cell overflow"),
        _ => panic!("expected a refusal"),
    }
    let mut it = stepper(1, vec![], false, Negativity::NotAllowed);
    it.load(program("-"));
    match it.next() {
        Err(InterpreterError::IllegalStateError(m)) => assert_eq!(m, "cell underflow"),
        _ => panic!("expected a refusal"),
    }
    let mut it = stepper(1, vec![], true, Negativity::NotAllowed);
    it.load(program("><"));
    match it.next() {
        Err(InterpreterError::IllegalStateError(m)) => {
            assert_eq!(m, "data pointer past the end of the tape")
        }
        _ => panic!("expected a refusal"),
    }
    let mut it = stepper(1, vec![], true, Negativity::NotAllowed);
    it.load(program("<"));
    match it.next() {
        Err(InterpreterError::IllegalStateError(m)) => {
            assert_eq!(m, "data pointer before the start of the tape")
        }
        _ => panic!("expected a refusal"),
    }
    let mut it = stepper(1, vec![], true, Negativity::Extend);
    it.load(program(">."));
    assert!(it.next().is_ok());
    match it.next() {
        Err(InterpreterError::IllegalStateError(m)) => assert_eq!(m, "data pointer off the tape"),
        _ => panic!("expected a refusal"),
    }
}

#[test]
fn run_sync_returns_the_failing_steps_error() {
    let specs = InterpreterSpecs { wrapped_cell: false, mem_ptr_negativity: Negativity::NotAllowed };
    let mut it = create_interpreter(Some(Config::ctor(Some(2), None, Some(specs))));
    match it.run_sync(program("+.--."), 50) {
        Err(InterpreterError::IllegalStateError(m)) => assert_eq!(m, "cell underflow"),
        _ => panic!("expected a refusal"),
    }
    let InterpreterEnum::SteppedInterpreterEnum(SteppedInterpreterEnum::NaiveSteppedInterpreter(n)) = &it;
    assert_eq!(n.peek_output(None, None), &[1u8][..]);
    assert_eq!(n.current_instr_offset(), 3);
}

#[test]
fn empty_program_has_no_instructions() {
    assert_eq!(ProgramType::empty().len(), 0);
    let mut it = stepper(1, vec![], true, Negativity::NotAllowed);
    it.load(ProgramType::empty());
    assert!(matches!(it.next(), Err(InterpreterError::InterpreterDone)));
}
