use cowlang::tape::decrement_current_memory_address;
use cowlang::tape::get_current_memory_as_integer;
use cowlang::tape::increment_current_memory_address;
use cowlang::tape::move_pointer_back_one;
use cowlang::tape::move_pointer_forward_one;
use cowlang::tape::set_current_memory_to_zero;
use cowlang::tape::set_memory_value_from_integer;
use cowlang::text::get_utf8_from_integer;
use cowlang::text::string_to_ascii_value;

#[test]
fn lib_test_move_pointer_forward_one() {
    let mut pointer: usize = 0;
    let mut memory: Vec<u8> = vec![0];
    move_pointer_forward_one(&mut memory, &mut pointer);
    assert_eq!(1usize, pointer);
    assert_eq!(vec![0, 0], memory);
}

#[test]
fn lib_test_move_pointer_back_one() {
    let mut pointer: usize = 1;
    move_pointer_back_one(&mut pointer);
    assert_eq!(0usize, pointer);
}

#[test]
fn lib_test_increment_current_memory_address() {
    let mut pointer: usize = 0;
    let mut memory: Vec<u8> = vec![0];
    increment_current_memory_address(&mut memory, &mut pointer);
    assert_eq!(memory, vec![1]);
}

#[test]
fn lib_test_decrement_current_memory_address() {
    let mut pointer: usize = 0;
    let mut memory: Vec<u8> = vec![1];
    decrement_current_memory_address(&mut memory, &mut pointer);
    assert_eq!(memory, vec![0]);
}

#[test]
fn lib_test_set_current_memory_address_to_zero() {
    let mut pointer: usize = 0;
    let mut memory: Vec<u8> = vec![1];
    set_current_memory_to_zero(&mut memory, &mut pointer);
    assert_eq!(memory, vec![0]);
}

#[test]
fn lib_test_print_current_memory_address_as_integer() {
    let pointer: usize = 0;
    let memory: Vec<u8> = vec![3];
    assert_eq!(get_current_memory_as_integer(memory, pointer), "3".to_owned());
}

#[test]
fn lib_test_string_to_ascii_value() {
    let a_string = String::from("g");
    let ascii_a_value = 103;
    let string_to_ascii = string_to_ascii_value(a_string);
    assert_eq!(string_to_ascii, ascii_a_value);
}

#[test]
fn lib_test_set_memory_value_from_integer() {
    let mut pointer: usize = 0;
    let mut memory: Vec<u8> = vec![0];
    set_memory_value_from_integer(4, &mut memory, &mut pointer);
    assert_eq!(memory, vec![4]);
}

#[test]
fn lib_test_read_ascii_value() {
    let test = get_utf8_from_integer(103);
    assert_eq!("g".to_owned(), test)
}
