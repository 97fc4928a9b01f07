use cowlang::engine::instruction_interpreter;
use cowlang::engine::moo_temp;
use cowlang::tape::decrement_current_memory_address;
use cowlang::tape::get_current_memory_as_integer;
use cowlang::tape::increment_current_memory_address;
use cowlang::tape::move_pointer_back_one;
use cowlang::tape::move_pointer_forward_one;
use cowlang::text::get_utf8_from_integer;
use cowlang::text::string_to_ascii_value;
use cowlang::CowIncrementer;
use cowlang::EngineFault;
use cowlang::IncrementMode;
use cowlang::InstructionInterpreter;
use cowlang::RunEvent;
use cowlang::StepEffect;

fn engine(tokens: &[&str], memory: Vec<u8>, armed: bool) -> InstructionInterpreter {
    InstructionInterpreter {
        memory,
        pointer: 0usize,
        incrementer: CowIncrementer { mode: IncrementMode::Forward },
        instructions: tokens.iter().map(|t| (*t).to_owned()).collect(),
        i: 0,
        execute_instructions: armed,
    }
}

#[test]
fn increment_cycle_of_256_restores_every_value() {
    for start in [0u8, 1, 7, 254, 255] {
        let mut memory: Vec<u8> = vec![start];
        let mut pointer: usize = 0;
        for _ in 0..256 {
            increment_current_memory_address(&mut memory, &mut pointer);
        }
        assert_eq!(memory, vec![start]);
    }
}

#[test]
fn decrement_cycle_of_256_restores_every_value() {
    for start in [0u8, 1, 7, 254, 255] {
        let mut memory: Vec<u8> = vec![start];
        let mut pointer: usize = 0;
        for _ in 0..256 {
            decrement_current_memory_address(&mut memory, &mut pointer);
        }
        assert_eq!(memory, vec![start]);
    }
}

#[test]
fn increment_then_decrement_is_identity_on_fresh_cell() {
    let mut memory: Vec<u8> = vec![0];
    let mut pointer: usize = 0;
    increment_current_memory_address(&mut memory, &mut pointer);
    decrement_current_memory_address(&mut memory, &mut pointer);
    assert_eq!(memory, vec![0]);
    decrement_current_memory_address(&mut memory, &mut pointer);
    increment_current_memory_address(&mut memory, &mut pointer);
    assert_eq!(memory, vec![0]);
}

#[test]
fn move_forward_from_last_index_grows_by_one_zero_cell() {
    let mut memory: Vec<u8> = vec![9, 8];
    let mut pointer: usize = 1;
    move_pointer_forward_one(&mut memory, &mut pointer);
    assert_eq!(memory, vec![9, 8, 0]);
    assert_eq!(pointer, 2);
    let mut pointer_inside: usize = 0;
    move_pointer_forward_one(&mut memory, &mut pointer_inside);
    assert_eq!(memory, vec![9, 8, 0]);
    assert_eq!(pointer_inside, 1);
}

#[test]
fn move_backward_from_index_zero_stays_at_zero() {
    let mut pointer: usize = 0;
    move_pointer_back_one(&mut pointer);
    assert_eq!(pointer, 0);
}

#[test]
fn moo_forward_then_back_moves_the_pointer() {
    let mut memory: Vec<u8> = vec![0];
    let mut pointer: usize = 0;
    let r = instruction_interpreter("moO", &mut memory, &mut pointer);
    assert!(matches!(r, Ok(StepEffect::Ran)));
    assert_eq!(memory, vec![0, 0]);
    assert_eq!(pointer, 1);
    let r = instruction_interpreter("mOo", &mut memory, &mut pointer);
    assert!(matches!(r, Ok(StepEffect::Ran)));
    assert_eq!(pointer, 0);
}

#[test]
fn increment_instruction_wraps_after_256_applications() {
    let mut memory: Vec<u8> = vec![0];
    let mut pointer: usize = 0;
    let r = instruction_interpreter("MoO", &mut memory, &mut pointer);
    assert!(matches!(r, Ok(StepEffect::Ran)));
    assert_eq!(memory, vec![1]);
    for _ in 0..255 {
        instruction_interpreter("MoO", &mut memory, &mut pointer).unwrap();
    }
    assert_eq!(memory, vec![0]);
}

#[test]
fn oom_emits_decimal_text_of_current_cell() {
    let mut memory: Vec<u8> = vec![3];
    let mut pointer: usize = 0;
    let r = instruction_interpreter("OOM", &mut memory, &mut pointer);
    match r {
        Ok(StepEffect::Emit(line)) => assert_eq!(line, "3".to_owned()),
        _ => panic!("expected an output line"),
    }
    assert_eq!(memory, vec![3]);
}

#[test]
fn echo_path_emits_g_for_103() {
    let mut memory: Vec<u8> = vec![103];
    let mut pointer: usize = 0;
    let r = instruction_interpreter("Moo", &mut memory, &mut pointer);
    match r {
        Ok(StepEffect::Emit(line)) => assert_eq!(line, "g".to_owned()),
        _ => panic!("expected an output line"),
    }
    assert_eq!(memory, vec![103]);
}

#[test]
fn echo_path_folds_values_above_127() {
    let mut memory: Vec<u8> = vec![231];
    let mut pointer: usize = 0;
    let r = instruction_interpreter("Moo", &mut memory, &mut pointer);
    match r {
        Ok(StepEffect::Emit(line)) => assert_eq!(line, "g".to_owned()),
        _ => panic!("expected an output line"),
    }
    assert_eq!(memory, vec![231]);
}

#[test]
fn input_path_asks_for_a_character_on_zero_cell() {
    let mut memory: Vec<u8> = vec![0];
    let mut pointer: usize = 0;
    let r = instruction_interpreter("Moo", &mut memory, &mut pointer);
    assert!(matches!(r, Ok(StepEffect::WantChar)));
    assert_eq!(memory, vec![0]);
}

#[test]
fn loop_program_reverses_at_repeat_and_grows_each_pass() {
    // An unarmed start with one dummy token before the loop: the engine
    // skips forward to the opener, runs the body, and the repeat token sends
    // it scanning back, skipping the token immediately before the repeat.
    let mut cow = engine(&["MMM", "MOO", "moO", "moo"], vec![0], false);

    assert!(matches!(cow.cow(1), Ok(RunEvent::Running)));
    assert_eq!(cow.i, 1);
    assert!(!cow.execute_instructions);

    assert!(matches!(cow.cow(1), Ok(RunEvent::Running)));
    assert_eq!(cow.i, 2);
    assert!(cow.execute_instructions);
    assert!(matches!(cow.incrementer.mode, IncrementMode::Forward));

    assert!(matches!(cow.cow(1), Ok(RunEvent::Running)));
    assert_eq!(cow.i, 3);
    assert_eq!(cow.memory, vec![0, 0]);
    assert_eq!(cow.pointer, 1);

    // The repeat token steps back one extra position, so the scan resumes at
    // the opener, never re-reading the body token on the way back.
    assert!(matches!(cow.cow(1), Ok(RunEvent::Running)));
    assert_eq!(cow.i, 1);
    assert!(!cow.execute_instructions);
    assert!(matches!(cow.incrementer.mode, IncrementMode::Backward));

    // Re-encountering the opener re-arms the engine as a no-op transition.
    assert!(matches!(cow.cow(1), Ok(RunEvent::Running)));
    assert_eq!(cow.i, 2);
    assert!(cow.execute_instructions);
    assert!(matches!(cow.incrementer.mode, IncrementMode::Forward));

    assert!(matches!(cow.cow(1), Ok(RunEvent::Running)));
    assert_eq!(cow.memory, vec![0, 0, 0]);
    assert_eq!(cow.pointer, 2);
}

#[test]
fn invalid_token_fails_naming_the_token() {
    let mut cow = engine(&["xyz"], vec![0], true);
    match cow.cow(10) {
        Err(EngineFault::Invalid(inv)) => assert_eq!(inv.token, "xyz".to_owned()),
        _ => panic!("expected the invalid-instruction fault"),
    }
    let mut memory: Vec<u8> = vec![0];
    let mut pointer: usize = 0;
    match instruction_interpreter("xyz", &mut memory, &mut pointer) {
        Err(inv) => assert_eq!(inv.token, "xyz".to_owned()),
        _ => panic!("expected the invalid-instruction fault"),
    }
}

#[test]
fn repeat_with_no_opener_is_an_unterminated_loop() {
    let mut cow = engine(&["MMM", "MMM", "moo"], vec![0], true);
    assert!(matches!(cow.cow(10), Err(EngineFault::UnterminatedLoop)));
    let mut at_start = engine(&["moo"], vec![0], true);
    assert!(matches!(at_start.cow(10), Err(EngineFault::UnterminatedLoop)));
}

#[test]
fn byte_read_flow_stores_and_prints() {
    let mut cow = engine(&["oom", "OOM"], vec![0], true);
    assert!(matches!(cow.cow(10), Ok(RunEvent::WantByte)));
    cow.set_memory_value_from_integer(7);
    match cow.cow(10) {
        Ok(RunEvent::Emit(line)) => assert_eq!(line, "7".to_owned()),
        _ => panic!("expected an output line"),
    }
    assert!(matches!(cow.cow(10), Ok(RunEvent::Halted)));
}

#[test]
fn char_read_flow_stores_the_ascii_value() {
    let mut cow = engine(&["Moo"], vec![0], true);
    assert!(matches!(cow.cow(10), Ok(RunEvent::WantChar)));
    let value = string_to_ascii_value(String::from("g"));
    cow.set_memory_value_from_integer(value);
    assert!(matches!(cow.cow(10), Ok(RunEvent::Halted)));
    assert_eq!(cow.memory, vec![103]);
}

#[test]
fn decimal_text_has_no_leading_zeros() {
    assert_eq!(get_current_memory_as_integer(vec![0], 0), "0".to_owned());
    assert_eq!(get_current_memory_as_integer(vec![45], 0), "45".to_owned());
    assert_eq!(get_current_memory_as_integer(vec![100], 0), "100".to_owned());
    assert_eq!(get_current_memory_as_integer(vec![255], 0), "255".to_owned());
}

#[test]
fn run_halts_when_the_cursor_leaves_the_sequence() {
    let mut cow = engine(&["MoO", "MoO"], vec![0], true);
    assert!(matches!(cow.cow(10), Ok(RunEvent::Halted)));
    assert_eq!(cow.memory, vec![2]);
}

#[test]
fn run_reports_running_when_the_budget_ends() {
    let mut cow = engine(&["MoO"], vec![0], true);
    assert!(matches!(cow.cow(0), Ok(RunEvent::Running)));
    assert!(matches!(cow.cow(10), Ok(RunEvent::Halted)));
    assert_eq!(cow.memory, vec![1]);
}

#[test]
fn fresh_interpreter_starts_on_a_single_zero_cell() {
    let cow = InstructionInterpreter::new(vec!["MMM".to_owned()]);
    assert_eq!(cow.memory, vec![0]);
    assert_eq!(cow.pointer, 0);
    assert_eq!(cow.i, 0);
    assert!(cow.execute_instructions);
}

#[test]
fn reserved_tokens_consume_a_step_and_do_nothing() {
    assert_eq!(moo_temp(), 1);
    let mut cow = engine(&["mOO", "MMM"], vec![5], true);
    assert!(matches!(cow.cow(10), Ok(RunEvent::Halted)));
    assert_eq!(cow.memory, vec![5]);
    assert_eq!(cow.pointer, 0);
}

#[test]
fn utf8_text_of_a_byte_is_one_character() {
    assert_eq!(get_utf8_from_integer(65), "A".to_owned());
    assert_eq!(get_utf8_from_integer(193), "A".to_owned());
}
