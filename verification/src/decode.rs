//! Bit-field decoding of 16-bit instruction words.
//!
//! An instruction word is two bytes, high byte first. Its four nibbles are
//! numbered from the most significant one. Every function here is total.

use vstd::arithmetic::div_mod::lemma_fundamental_div_mod_converse;
use vstd::prelude::*;

verus! {

/// Bits 15..12: the opcode family.
pub open spec fn nibble1(w: u16) -> u8 {
    (w / 0x1000) as u8
}

/// Bits 11..8: usually the register index X.
pub open spec fn nibble2(w: u16) -> u8 {
    ((w / 0x100) % 0x10) as u8
}

/// Bits 7..4: usually the register index Y.
pub open spec fn nibble3(w: u16) -> u8 {
    ((w / 0x10) % 0x10) as u8
}

/// Bits 3..0: a sub-opcode or a small immediate.
pub open spec fn nibble4(w: u16) -> u8 {
    (w % 0x10) as u8
}

/// Bits 11..0: a 12-bit address.
pub open spec fn addr12(w: u16) -> u16 {
    w % 0x1000
}

/// Bits 7..0: an 8-bit immediate.
pub open spec fn imm8(w: u16) -> u8 {
    (w % 0x100) as u8
}

/// The word whose high byte is `hi` and whose low byte is `lo`.
pub open spec fn word_of(hi: u8, lo: u8) -> u16 {
    (hi * 0x100 + lo) as u16
}

/// The instruction word made of four nibbles, the most significant first.
pub open spec fn word_of_nibbles(n1: u8, n2: u8, n3: u8, n4: u8) -> u16 {
    (n1 * 0x1000 + n2 * 0x100 + n3 * 0x10 + n4) as u16
}

/// Decoding gives back the nibbles that a word was made of.
pub proof fn lemma_nibbles_of_word(n1: u8, n2: u8, n3: u8, n4: u8)
    requires
        n1 < 0x10,
        n2 < 0x10,
        n3 < 0x10,
        n4 < 0x10,
    ensures
        nibble1(word_of_nibbles(n1, n2, n3, n4)) == n1,
        nibble2(word_of_nibbles(n1, n2, n3, n4)) == n2,
        nibble3(word_of_nibbles(n1, n2, n3, n4)) == n3,
        nibble4(word_of_nibbles(n1, n2, n3, n4)) == n4,
        addr12(word_of_nibbles(n1, n2, n3, n4)) == n2 * 0x100 + n3 * 0x10 + n4,
        imm8(word_of_nibbles(n1, n2, n3, n4)) == n3 * 0x10 + n4,
{
    let w = word_of_nibbles(n1, n2, n3, n4) as int;
    lemma_fundamental_div_mod_converse(w, 0x1000, n1 as int, n2 * 0x100 + n3 * 0x10 + n4);
    lemma_fundamental_div_mod_converse(w, 0x100, n1 * 0x10 + n2, n3 * 0x10 + n4);
    lemma_fundamental_div_mod_converse(w, 0x10, n1 * 0x100 + n2 * 0x10 + n3, n4 as int);
    lemma_fundamental_div_mod_converse(n1 * 0x10 + n2, 0x10, n1 as int, n2 as int);
    lemma_fundamental_div_mod_converse(
        n1 * 0x100 + n2 * 0x10 + n3,
        0x10,
        n1 * 0x10 + n2,
        n3 as int,
    );
}

/// Bit `col` of a sprite row, counted from the left: column 0 is the most
/// significant bit of the byte.
pub open spec fn sprite_bit(byte: u8, col: int) -> bool {
    (byte >> ((7 - col) as u8)) & 1 == 1
}

/// The eight bits of `byte` as pixels, leftmost (most significant) first.
pub fn get_bools_of_byte(byte: u8) -> (bools: [bool; 8])
    ensures
        forall|col: int| 0 <= col < 8 ==> bools[col] == sprite_bit(byte, col),
{
    assert({
        &&& ((byte & 0b10000000) >> 7 == 1) == ((byte >> 7u8) & 1 == 1)
        &&& ((byte & 0b01000000) >> 6 == 1) == ((byte >> 6u8) & 1 == 1)
        &&& ((byte & 0b00100000) >> 5 == 1) == ((byte >> 5u8) & 1 == 1)
        &&& ((byte & 0b00010000) >> 4 == 1) == ((byte >> 4u8) & 1 == 1)
        &&& ((byte & 0b00001000) >> 3 == 1) == ((byte >> 3u8) & 1 == 1)
        &&& ((byte & 0b00000100) >> 2 == 1) == ((byte >> 2u8) & 1 == 1)
        &&& ((byte & 0b00000010) >> 1 == 1) == ((byte >> 1u8) & 1 == 1)
        &&& ((byte & 0b00000001) == 1) == ((byte >> 0u8) & 1 == 1)
    }) by (bit_vector);
    [
        (byte & 0b10000000) >> 7 == 1,
        (byte & 0b01000000) >> 6 == 1,
        (byte & 0b00100000) >> 5 == 1,
        (byte & 0b00010000) >> 4 == 1,
        (byte & 0b00001000) >> 3 == 1,
        (byte & 0b00000100) >> 2 == 1,
        (byte & 0b00000010) >> 1 == 1,
        (byte & 0b00000001) == 1,
    ]
}

/// Joins two bytes into a big-endian word.
pub fn merge_bytes(b1: u8, b2: u8) -> (w: u16)
    ensures
        w == word_of(b1, b2),
{
    assert(((b1 as u16) << 8 | b2 as u16) == (b1 as u16) * 0x100 + (b2 as u16)) by (bit_vector);
    (b1 as u16) << 8 | b2 as u16
}

/// Joins two hexadecimal digits into a byte. Only the low four bits of `h1`
/// survive the shift; bits of `h2` above the fourth are or-ed in as they are.
pub fn merge_hex2(h1: u8, h2: u8) -> (b: u8)
    ensures
        b == (((h1 % 0x10) * 0x10) as u8) | h2,
        h2 < 0x10 ==> b == (h1 % 0x10) * 0x10 + h2,
{
    assert((h1 << 4) == ((h1 % 0x10) * 0x10) as u8) by (bit_vector);
    assert(h2 < 0x10 ==> ((h1 << 4) | h2) == (h1 % 0x10) * 0x10 + h2) by (bit_vector);
    h1 << 4 | h2
}

/// Joins three hexadecimal digits into a word. Bits of `h2` and `h3` above
/// the fourth are or-ed in as they are.
pub fn merge_hex3(h1: u8, h2: u8, h3: u8) -> (w: u16)
    ensures
        w == ((h1 * 0x100) as u16) | ((h2 * 0x10) as u16) | (h3 as u16),
        h2 < 0x10 && h3 < 0x10 ==> w == h1 * 0x100 + h2 * 0x10 + h3,
{
    assert(((h1 as u16) << 8) == (h1 as u16) * 0x100) by (bit_vector);
    assert(((h2 as u16) << 4) == (h2 as u16) * 0x10) by (bit_vector);
    assert(h2 < 0x10 && h3 < 0x10 ==> (((h1 as u16) << 8) | ((h2 as u16) << 4) | (h3 as u16)) == (
    h1 as u16) * 0x100 + (h2 as u16) * 0x10 + (h3 as u16)) by (bit_vector);
    ((h1 as u16) << 8) | ((h2 as u16) << 4) | h3 as u16
}

/// The first nibble, left in place.
pub fn bitmask1(instruction: u16) -> (r: u16)
    ensures
        r == nibble1(instruction) * 0x1000,
{
    assert((instruction & 0xF000) == (instruction / 0x1000) * 0x1000) by (bit_vector);
    instruction & 0xF000
}

/// The second nibble, left in place.
pub fn bitmask2(instruction: u16) -> (r: u16)
    ensures
        r == nibble2(instruction) * 0x100,
{
    assert((instruction & 0x0F00) == ((instruction / 0x100) % 0x10) * 0x100) by (bit_vector);
    instruction & 0x0F00
}

/// The third nibble, left in place.
pub fn bitmask3(instruction: u16) -> (r: u16)
    ensures
        r == nibble3(instruction) * 0x10,
{
    assert((instruction & 0x00F0) == ((instruction / 0x10) % 0x10) * 0x10) by (bit_vector);
    instruction & 0x00F0
}

/// The fourth nibble.
pub fn bitmask4(instruction: u16) -> (r: u16)
    ensures
        r == nibble4(instruction),
{
    assert((instruction & 0x000F) == instruction % 0x10) by (bit_vector);
    instruction & 0x000F
}

/// The first nibble as a number below 16.
pub fn s_bitmask1(instruction: u16) -> (r: u8)
    ensures
        r == nibble1(instruction),
        r < 0x10,
{
    assert(((instruction & 0xF000) >> 12) == instruction / 0x1000) by (bit_vector);
    ((instruction & 0xF000) >> 12) as u8
}

/// The second nibble as a number below 16.
pub fn s_bitmask2(instruction: u16) -> (r: u8)
    ensures
        r == nibble2(instruction),
        r < 0x10,
{
    assert(((instruction & 0x0F00) >> 8) == (instruction / 0x100) % 0x10) by (bit_vector);
    ((instruction & 0x0F00) >> 8) as u8
}

/// The third nibble as a number below 16.
pub fn s_bitmask3(instruction: u16) -> (r: u8)
    ensures
        r == nibble3(instruction),
        r < 0x10,
{
    assert(((instruction & 0x00F0) >> 4) == (instruction / 0x10) % 0x10) by (bit_vector);
    ((instruction & 0x00F0) >> 4) as u8
}

/// The fourth nibble as a number below 16.
pub fn s_bitmask4(instruction: u16) -> (r: u8)
    ensures
        r == nibble4(instruction),
        r < 0x10,
{
    assert((instruction & 0x000F) == instruction % 0x10) by (bit_vector);
    (instruction & 0x000F) as u8
}

/// The low twelve bits: an address.
pub fn s_bitmask24(instruction: u16) -> (r: u16)
    ensures
        r == addr12(instruction),
        r < 0x1000,
{
    assert((instruction & 0x0FFF) == instruction % 0x1000) by (bit_vector);
    instruction & 0x0FFF
}

/// The low byte: an immediate.
pub fn s_bitmask34(instruction: u16) -> (r: u8)
    ensures
        r == imm8(instruction),
{
    assert((instruction & 0x00FF) == instruction % 0x100) by (bit_vector);
    (instruction & 0x00FF) as u8
}

/// The top bit of a byte, as 0 or 1.
pub fn most_significant_bit(byte: u8) -> (bit: u8)
    ensures
        bit == byte / 0x80,
{
    assert(((byte & 0b10000000) >> 7) == byte / 0x80) by (bit_vector);
    (byte & 0b10000000) >> 7
}

/// The bottom bit of a byte, as 0 or 1.
pub fn least_significant_bit(byte: u8) -> (bit: u8)
    ensures
        bit == byte % 2,
{
    assert((byte & 0b00000001) == byte % 2) by (bit_vector);
    byte & 0b00000001
}

} // verus!
