//! Laying out a program in memory.

use crate::machine::{MEMORY_SIZE, PROGRAM_START};
use vstd::prelude::*;

verus! {

/// The longest program that fits in memory behind `PROGRAM_START`.
pub const PROGRAM_CAPACITY: usize = 3584;

/// Memory that holds `program` from `PROGRAM_START` on and zero everywhere
/// else.
pub open spec fn image_of(program: Seq<u8>) -> Seq<u8> {
    Seq::new(
        MEMORY_SIZE as nat,
        |a: int|
            if PROGRAM_START <= a < PROGRAM_START + program.len() {
                program[a - PROGRAM_START]
            } else {
                0u8
            },
    )
}

/// The memory image for a program: its bytes from `PROGRAM_START` on, the
/// rest zero. A program longer than `PROGRAM_CAPACITY` does not fit.
pub fn rom_image(program: &[u8]) -> (rom: [u8; 4096])
    requires
        program@.len() <= PROGRAM_CAPACITY,
    ensures
        rom@ == image_of(program@),
{
    let mut rom: [u8; 4096] = [0;4096];
    let mut i: usize = 0;
    while i < program.len()
        invariant
            i <= program@.len() <= PROGRAM_CAPACITY,
            rom@ == image_of(program@.take(i as int)),
        decreases program@.len() - i,
    {
        rom[i + 512] = program[i];
        i += 1;
        assert(rom@ =~= image_of(program@.take(i as int)));
    }
    assert(program@.take(i as int) =~= program@);
    rom
}

} // verus!
