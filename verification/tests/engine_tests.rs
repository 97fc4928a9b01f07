use cowlang::text::get_utf8_from_integer;
use cowlang::text::string_to_ascii_value;
use cowlang::CowIncrementer;
use cowlang::IncrementMode;
use cowlang::InstructionInterpreter;

#[test]
fn main_test_move_pointer_forward_one() {
    let mut cow = InstructionInterpreter {
        memory: vec![0],
        pointer: 0usize,
        incrementer: CowIncrementer { mode: IncrementMode::Forward },
        instructions: vec!["test".to_owned()],
        i: 0,
        execute_instructions: true,
    };
    cow.move_pointer_forward_one();
    assert_eq!(1usize, cow.pointer);
    assert_eq!(vec![0, 0], cow.memory);
}

#[test]
fn main_test_move_pointer_back_one() {
    let mut cow = InstructionInterpreter {
        memory: vec![0],
        pointer: 0usize,
        incrementer: CowIncrementer { mode: IncrementMode::Forward },
        instructions: vec!["test".to_owned()],
        i: 0,
        execute_instructions: true,
    };
    cow.move_pointer_back_one();
    assert_eq!(0usize, cow.pointer);
}

#[test]
fn main_test_increment_current_memory_address() {
    let mut cow = InstructionInterpreter {
        memory: vec![0],
        pointer: 0usize,
        incrementer: CowIncrementer { mode: IncrementMode::Forward },
        instructions: vec!["test".to_owned()],
        i: 0,
        execute_instructions: true,
    };
    cow.increment_current_memory_address();
    assert_eq!(cow.memory, vec![1]);
}

#[test]
fn main_test_decrement_current_memory_address() {
    let mut cow = InstructionInterpreter {
        memory: vec![1],
        pointer: 0usize,
        incrementer: CowIncrementer { mode: IncrementMode::Forward },
        instructions: vec!["test".to_owned()],
        i: 0,
        execute_instructions: true,
    };
    cow.decrement_current_memory_address();
    assert_eq!(cow.memory, vec![0]);
}

#[test]
fn main_test_set_current_memory_address_to_zero() {
    let mut cow = InstructionInterpreter {
        memory: vec![1],
        pointer: 0usize,
        incrementer: CowIncrementer { mode: IncrementMode::Forward },
        instructions: vec!["test".to_owned()],
        i: 0,
        execute_instructions: true,
    };
    cow.set_current_memory_to_zero();
    assert_eq!(cow.memory, vec![0]);
}

#[test]
fn main_test_print_current_memory_address_as_integer() {
    let mut cow = InstructionInterpreter {
        memory: vec![3],
        pointer: 0usize,
        incrementer: CowIncrementer { mode: IncrementMode::Forward },
        instructions: vec!["test".to_owned()],
        i: 0,
        execute_instructions: true,
    };
    assert_eq!(cow.get_current_memory_as_integer(), "3".to_owned());
}

#[test]
fn main_test_string_to_ascii_value() {
    let a_string = String::from("g");
    let ascii_a_value = 103;
    let string_to_ascii = string_to_ascii_value(a_string);
    assert_eq!(string_to_ascii, ascii_a_value);
}

#[test]
fn main_test_set_memory_value_from_integer() {
    let mut cow = InstructionInterpreter {
        memory: vec![0],
        pointer: 0usize,
        incrementer: CowIncrementer { mode: IncrementMode::Forward },
        instructions: vec!["test".to_owned()],
        i: 0,
        execute_instructions: true,
    };
    cow.set_memory_value_from_integer(4);
    assert_eq!(cow.memory, vec![4]);
}

#[test]
fn main_test_read_ascii_value() {
    let test = get_utf8_from_integer(103);
    assert_eq!("g".to_owned(), test)
}
