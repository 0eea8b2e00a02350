//! The deterministic inputs the contenders hash.
use vstd::prelude::*;

verus! {

/// One xorshift64 step (shifts 13, 7, 17), as the input generator applies it.
pub open spec fn xorshift_step(state: u64) -> u64 {
    let first = state ^ (state << 13u64);
    let second = first ^ (first >> 7u64);
    second ^ (second << 17u64)
}

/// `value` rotated left by 17 bits (what `u64::rotate_left(17)` returns).
pub open spec fn rotated_left_17(value: u64) -> u64 {
    (value << 17u64) | (value >> 47u64)
}

/// The generator's starting state for an input of `size` bytes.
pub open spec fn input_seed(size: u64) -> u64 {
    0x6a09_e667_f3bc_c909u64 ^ rotated_left_17(size)
}

/// The generator's state after `steps` steps from the seed for `size`.
pub open spec fn input_state(size: u64, steps: nat) -> u64
    decreases steps,
{
    if steps == 0 {
        input_seed(size)
    } else {
        xorshift_step(input_state(size, (steps - 1) as nat))
    }
}

/// Byte `index` of the input of `size` bytes: bits 24..32 of the state after
/// `index + 1` steps.
pub open spec fn input_byte(size: u64, index: nat) -> u8 {
    (input_state(size, index + 1) >> 24u64) as u8
}

/// The input of `size` bytes: each byte drawn from a xorshift64 generator
/// seeded from the size, so every size gets its own fixed bytes.
pub fn make_input(size: usize) -> (input: Vec<u8>)
    requires
        size > 0,
    ensures
        input@.len() == size,
        forall|index: int| 0 <= index < size ==> #[trigger] input@[index] == input_byte(size as u64, index as nat),
{
    let mut input = vec![0_u8; size];

    let size_bits = size as u64;
    let mut state = 0x6a09_e667_f3bc_c909_u64 ^ ((size_bits << 17u64) | (size_bits >> 47u64));

    let mut index: usize = 0;
    while index < size
        invariant
            index <= size,
            input@.len() == size,
            state == input_state(size as u64, index as nat),
            forall|written: int| 0 <= written < index ==> #[trigger] input@[written] == input_byte(size as u64, written as nat),
        decreases size - index,
    {
        state ^= state << 13u64;
        state ^= state >> 7u64;
        state ^= state << 17u64;
        input.set(index, (state >> 24u64) as u8);
        index += 1;
    }

    input
}

} // verus!
