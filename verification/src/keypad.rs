//! The sixteen-key keypad as the host sees it.

use vstd::prelude::*;

verus! {

/// Number of keys.
pub const KEY_COUNT: usize = 16;

/// The key set for a frame in which key `k` is down exactly if `down[k]`:
/// the codes of the keys that are down, in rising order, so that the highest
/// one counts as the most recently pushed.
pub fn held_keys(down: &[bool; 16]) -> (keys: Vec<u8>)
    ensures
        forall|i: int, j: int| 0 <= i < j < keys@.len() ==> keys@[i] < keys@[j],
        forall|k: u8| keys@.contains(k) <==> (k < KEY_COUNT && down@[k as int]),
{
    let mut keys: Vec<u8> = Vec::new();
    let mut k: u8 = 0;
    while k < 16
        invariant
            k <= 16,
            forall|i: int, j: int| 0 <= i < j < keys@.len() ==> keys@[i] < keys@[j],
            forall|i: int| 0 <= i < keys@.len() ==> keys@[i] < k,
            forall|c: u8| keys@.contains(c) <==> (c < k && down@[c as int]),
        decreases 16 - k,
    {
        if down[k as usize] {
            let ghost before = keys@;
            keys.push(k);
            assert(keys@.last() == k);
            assert forall|c: u8| keys@.contains(c) <==> (c < k + 1 && down@[c as int]) by {
                if before.contains(c) {
                    let i = choose|i: int| 0 <= i < before.len() && before[i] == c;
                    assert(keys@[i] == c);
                }
                if c == k {
                    assert(keys@[keys@.len() - 1] == c);
                }
            }
        }
        k += 1;
    }
    keys
}

} // verus!
