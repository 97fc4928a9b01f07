//! The byte tape: a growable sequence of 8-bit cells and a pointer into it.
//!
//! The tape starts as a single zero cell and only ever grows, one zero cell
//! at a time, at the high end.  The pointer always stays inside the tape:
//! moving right grows the tape on demand, moving left clamps at cell 0.
//! Increment and decrement wrap around at the 8-bit boundary.

use vstd::prelude::*;

use crate::text::decimal_seq;
use crate::text::decimal_string;

verus! {

/// The value of a cell after one increment: 255 wraps around to 0.
pub open spec fn wrap_inc(v: u8) -> u8 {
    if v == 255 {
        0
    } else {
        (v + 1) as u8
    }
}

/// The value of a cell after one decrement: 0 wraps around to 255.
pub open spec fn wrap_dec(v: u8) -> u8 {
    if v == 0 {
        255
    } else {
        (v - 1) as u8
    }
}

/// The value of a cell after `n` increments.
pub open spec fn iter_inc(v: u8, n: nat) -> u8
    decreases n,
{
    if n == 0 {
        v
    } else {
        wrap_inc(iter_inc(v, (n - 1) as nat))
    }
}

/// The value of a cell after `n` decrements.
pub open spec fn iter_dec(v: u8, n: nat) -> u8
    decreases n,
{
    if n == 0 {
        v
    } else {
        wrap_dec(iter_dec(v, (n - 1) as nat))
    }
}

proof fn lemma_iter_inc_mod(v: u8, n: nat)
    ensures
        iter_inc(v, n) == ((v + n) % 256) as u8,
    decreases n,
{
    if n > 0 {
        lemma_iter_inc_mod(v, (n - 1) as nat);
    }
}

proof fn lemma_iter_dec_mod(v: u8, n: nat)
    ensures
        iter_dec(v, n) == ((v + 256 * n - n) % 256) as u8,
    decreases n,
{
    if n > 0 {
        lemma_iter_dec_mod(v, (n - 1) as nat);
    }
}

/// Law: incrementing a cell 256 times returns it to its original value,
/// for every byte value.  The wraparound cycle has length exactly 256.
pub proof fn lemma_increment_cycle(v: u8)
    ensures
        iter_inc(v, 256) == v,
{
    lemma_iter_inc_mod(v, 256);
}

/// Law: decrementing a cell 256 times returns it to its original value,
/// for every byte value.
pub proof fn lemma_decrement_cycle(v: u8)
    ensures
        iter_dec(v, 256) == v,
{
    lemma_iter_dec_mod(v, 256);
}

/// Law: one increment followed by one decrement is the identity on a cell,
/// and so is one decrement followed by one increment, for every byte value.
pub proof fn lemma_increment_decrement_identity(v: u8)
    ensures
        wrap_dec(wrap_inc(v)) == v,
        wrap_inc(wrap_dec(v)) == v,
{
}

/// Move the pointer one cell to the left.  At cell 0 the pointer stays at 0:
/// moving left past the start is a deliberate no-op, not a fault.
pub fn move_pointer_back_one(pointer: &mut usize)
    ensures
        *old(pointer) == 0 ==> *final(pointer) == 0,
        *old(pointer) > 0 ==> *final(pointer) == *old(pointer) - 1,
{
    match *pointer {
        0 => {
            *pointer = 0;
        },
        _ => {
            *pointer = *pointer - 1;
        },
    };
}

/// Move the pointer one cell to the right.  From the last cell the tape
/// grows by exactly one zero cell, so the pointer is valid afterwards.
pub fn move_pointer_forward_one(memory: &mut Vec<u8>, pointer: &mut usize)
    requires
        *old(pointer) < old(memory).len(),
    ensures
        *old(pointer) == old(memory).len() - 1 ==> final(memory)@ == old(memory)@.push(0u8),
        *old(pointer) < old(memory).len() - 1 ==> final(memory)@ == old(memory)@,
        *final(pointer) == *old(pointer) + 1,
        *final(pointer) < final(memory).len(),
{
    if *pointer == memory.len() - 1 {
        memory.push(0);
    }
    *pointer = *pointer + 1;
}

/// Increment the cell under the pointer, wrapping 255 around to 0.
pub fn increment_current_memory_address(memory: &mut Vec<u8>, pointer: &mut usize)
    requires
        *old(pointer) < old(memory).len(),
    ensures
        final(memory)@ == old(memory)@.update(
            *old(pointer) as int,
            wrap_inc(old(memory)@[*old(pointer) as int]),
        ),
        *final(pointer) == *old(pointer),
{
    let p: usize = *pointer;
    let v: u8 = memory[p];
    if v == 255 {
        memory[p] = 0;
    } else {
        memory[p] = v + 1;
    }
}

/// Decrement the cell under the pointer, wrapping 0 around to 255.
pub fn decrement_current_memory_address(memory: &mut Vec<u8>, pointer: &mut usize)
    requires
        *old(pointer) < old(memory).len(),
    ensures
        final(memory)@ == old(memory)@.update(
            *old(pointer) as int,
            wrap_dec(old(memory)@[*old(pointer) as int]),
        ),
        *final(pointer) == *old(pointer),
{
    let p: usize = *pointer;
    let v: u8 = memory[p];
    if v == 0 {
        memory[p] = 255;
    } else {
        memory[p] = v - 1;
    }
}

/// Set the cell under the pointer to zero.
pub fn set_current_memory_to_zero(memory: &mut Vec<u8>, pointer: &mut usize)
    requires
        *old(pointer) < old(memory).len(),
    ensures
        final(memory)@ == old(memory)@.update(*old(pointer) as int, 0u8),
        *final(pointer) == *old(pointer),
{
    let p: usize = *pointer;
    memory[p] = 0;
}

/// The decimal text of the cell under the pointer: the line that the print
/// instruction emits.
pub fn get_current_memory_as_integer(memory: Vec<u8>, pointer: usize) -> (s: String)
    requires
        pointer < memory.len(),
    ensures
        s@ == decimal_seq(memory@[pointer as int] as int),
{
    decimal_string(memory[pointer])
}

/// Overwrite the cell under the pointer with the given value.
pub fn set_memory_value_from_integer(integer: u8, memory: &mut Vec<u8>, pointer: &mut usize)
    requires
        *old(pointer) < old(memory).len(),
    ensures
        final(memory)@ == old(memory)@.update(*old(pointer) as int, integer),
        *final(pointer) == *old(pointer),
{
    let p: usize = *pointer;
    memory[p] = integer;
}

} // verus!
