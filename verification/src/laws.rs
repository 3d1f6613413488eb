//! Laws of the machine: properties of the model that hold for every state,
//! proved once and for all.

use crate::decode::{
    imm8, lemma_nibbles_of_word, nibble1, nibble2, nibble3, nibble4, sprite_bit, word_of_nibbles,
};
use crate::machine::{
    can_step, count_down, execute, fetch, keeps_running, run, sprite_at_index, step, tick,
    Machine, FLAG, HALT_BOUND, TIMER_HZ,
};
use crate::screen::{
    blank, blit, blit_cols, collides, cols_collide, is_grid, lemma_blit_is_grid, line_covers,
};
use vstd::prelude::*;

verus! {

/// No pixel of an all-zero sprite line is set.
pub proof fn lemma_zero_line_has_no_bits(col: int)
    ensures
        !sprite_bit(0, col),
{
    let shift = (7 - col) as u8;
    assert((0u8 >> shift) & 1 != 1) by (bit_vector);
}

/// Drawing a sprite whose bytes are all zero changes no pixel and reports
/// no collision, whatever the screen shows and wherever the sprite is put.
pub proof fn law_zero_sprite_draws_nothing(g: Seq<Seq<bool>>, x: int, y: int, sprite: Seq<u8>)
    requires
        is_grid(g),
        forall|k: int| 0 <= k < sprite.len() ==> sprite[k] == 0,
    ensures
        blit(g, x, y, sprite) == g,
        !collides(g, x, y, sprite),
    decreases sprite.len(),
{
    if sprite.len() > 0 {
        let above = sprite.drop_last();
        let line = y + sprite.len() - 1;
        law_zero_sprite_draws_nothing(g, x, y, above);
        assert(sprite.last() == 0);
        assert forall|px: int, py: int| !line_covers(x, line, 0, 8, px, py) by {
            lemma_zero_line_has_no_bits((px - x) % 64);
        }
        assert(blit_cols(g, x, line, 0, 8) =~~= g);
        assert(!cols_collide(g, x, line, 0, 8)) by {
            assert forall|col: int| !sprite_bit(0, col) by {
                lemma_zero_line_has_no_bits(col);
            }
        }
    }
}

/// Clearing the screen (`00E0`) and then drawing a sprite (`DXYN`) whose
/// bytes in memory are all zero leaves the screen blank and the flag
/// register at 0.
pub proof fn law_clear_then_zero_sprite(m: Machine, draw: u16, r1: u8, r2: u8)
    requires
        m.wf(),
        nibble1(draw) == 0xD,
        forall|k: int|
            0 <= k < nibble4(draw) ==> #[trigger] sprite_at_index(m, nibble4(draw) as int)[k] == 0,
    ensures
        ({
            let cleared = execute(m, 0x00E0, r1).machine;
            let drawn = execute(cleared, draw, r2).machine;
            &&& cleared.screen == blank()
            &&& drawn.screen == blank()
            &&& drawn.reg(FLAG as u8) == 0
        }),
{
    let cleared = execute(m, 0x00E0, r1).machine;
    let sprite = sprite_at_index(cleared, nibble4(draw) as int);
    assert(sprite =~= sprite_at_index(m, nibble4(draw) as int));
    law_zero_sprite_draws_nothing(
        blank(),
        cleared.reg(nibble2(draw)) as int,
        cleared.reg(nibble3(draw)) as int,
        sprite,
    );
}

/// Whether pixel `col` of line `k` of the sprite is set and meets a pixel
/// that is on when line `k` is drawn, that is, after the lines above it.
pub open spec fn bit_hits(
    g: Seq<Seq<bool>>,
    x: int,
    y: int,
    sprite: Seq<u8>,
    k: int,
    col: int,
) -> bool {
    &&& 0 <= k < sprite.len()
    &&& 0 <= col < 8
    &&& sprite_bit(sprite[k], col)
    &&& blit(g, x, y, sprite.take(k))[(x + col) % 64][(y + k) % 32]
}

/// A draw collides exactly if some set sprite bit meets a pixel that is on
/// immediately before that bit is combined with it.
pub proof fn law_collision_is_a_bit_on_a_lit_pixel(
    g: Seq<Seq<bool>>,
    x: int,
    y: int,
    sprite: Seq<u8>,
)
    ensures
        collides(g, x, y, sprite) <==> exists|k: int, col: int|
            bit_hits(g, x, y, sprite, k, col),
    decreases sprite.len(),
{
    if sprite.len() > 0 {
        let above = sprite.drop_last();
        let last = sprite.len() - 1;
        law_collision_is_a_bit_on_a_lit_pixel(g, x, y, above);
        assert(sprite.take(last) =~= above);
        if collides(g, x, y, above) {
            let (k, col) = choose|k: int, col: int| bit_hits(g, x, y, above, k, col);
            assert(above.take(k) =~= sprite.take(k));
            assert(bit_hits(g, x, y, sprite, k, col));
        }
        if cols_collide(blit(g, x, y, above), x, y + last, sprite.last(), 8) {
            let col = choose|col: int|
                0 <= col < 8 && sprite_bit(sprite.last(), col) && #[trigger] blit(
                    g,
                    x,
                    y,
                    above,
                )[(x + col) % 64][(y + last) % 32];
            assert(bit_hits(g, x, y, sprite, last, col));
        }
        if exists|k: int, col: int| bit_hits(g, x, y, sprite, k, col) {
            let (k, col) = choose|k: int, col: int| bit_hits(g, x, y, sprite, k, col);
            if k < last {
                assert(above.take(k) =~= sprite.take(k));
                assert(bit_hits(g, x, y, above, k, col));
            } else {
                assert(blit(g, x, y, above)[(x + col) % 64][(y + last) % 32]);
            }
        }
    } else {
        assert forall|k: int, col: int| !bit_hits(g, x, y, sprite, k, col) by {}
    }
}

/// Whether an odd number of set bits of the sprite drawn at `(x, y)` falls
/// on the pixel `(px, py)`.
pub open spec fn toggled(x: int, y: int, sprite: Seq<u8>, px: int, py: int) -> bool
    decreases sprite.len(),
{
    if sprite.len() == 0 {
        false
    } else {
        toggled(x, y, sprite.drop_last(), px, py) ^ line_covers(
            x,
            y + sprite.len() - 1,
            sprite.last(),
            8,
            px,
            py,
        )
    }
}

/// Whether some bit of the sprite is set.
pub open spec fn has_set_bit(sprite: Seq<u8>) -> bool {
    exists|k: int| 0 <= k < sprite.len() && #[trigger] sprite[k] != 0
}

/// Drawing flips exactly the pixels on which an odd number of set sprite
/// bits falls.
pub proof fn lemma_blit_toggles(
    g: Seq<Seq<bool>>,
    x: int,
    y: int,
    sprite: Seq<u8>,
    px: int,
    py: int,
)
    requires
        is_grid(g),
        0 <= px < 64,
        0 <= py < 32,
    ensures
        blit(g, x, y, sprite)[px][py] == (g[px][py] ^ toggled(x, y, sprite, px, py)),
    decreases sprite.len(),
{
    if sprite.len() > 0 {
        lemma_blit_toggles(g, x, y, sprite.drop_last(), px, py);
    }
}

/// Drawing the same sprite twice at the same place gives back the screen as
/// it was.
pub proof fn law_draw_twice_restores(g: Seq<Seq<bool>>, x: int, y: int, sprite: Seq<u8>)
    requires
        is_grid(g),
    ensures
        blit(blit(g, x, y, sprite), x, y, sprite) == g,
{
    let once = blit(g, x, y, sprite);
    let twice = blit(once, x, y, sprite);
    lemma_blit_is_grid(g, x, y, sprite);
    lemma_blit_is_grid(once, x, y, sprite);
    assert forall|px: int, py: int| 0 <= px < 64 && 0 <= py < 32 implies twice[px][py]
        == g[px][py] by {
        lemma_blit_toggles(g, x, y, sprite, px, py);
        lemma_blit_toggles(once, x, y, sprite, px, py);
    }
    assert(twice =~~= g);
}

/// A collision among the first `shown` lines of a sprite is a collision of
/// the whole sprite.
pub proof fn lemma_collision_persists(
    g: Seq<Seq<bool>>,
    x: int,
    y: int,
    sprite: Seq<u8>,
    shown: int,
)
    requires
        0 <= shown <= sprite.len(),
        collides(g, x, y, sprite.take(shown)),
    ensures
        collides(g, x, y, sprite),
    decreases sprite.len() - shown,
{
    if shown < sprite.len() {
        assert(sprite.take(shown + 1).drop_last() =~= sprite.take(shown));
        lemma_collision_persists(g, x, y, sprite, shown + 1);
    } else {
        assert(sprite.take(shown) =~= sprite);
    }
}

/// In a draw without collision, a pixel that is on after some lines were
/// drawn is still on after any further lines.
proof fn lemma_lit_pixel_stays(
    g: Seq<Seq<bool>>,
    x: int,
    y: int,
    sprite: Seq<u8>,
    px: int,
    py: int,
    from: int,
    to: int,
)
    requires
        is_grid(g),
        0 <= px < 64,
        0 <= py < 32,
        0 <= from <= to <= sprite.len(),
        !collides(g, x, y, sprite),
        blit(g, x, y, sprite.take(from))[px][py],
    ensures
        blit(g, x, y, sprite.take(to))[px][py],
    decreases to - from,
{
    if from < to {
        lemma_lit_pixel_stays(g, x, y, sprite, px, py, from, to - 1);
        let above = sprite.take(to - 1);
        let shown = sprite.take(to);
        let before = blit(g, x, y, above);
        assert(shown.drop_last() =~= above);
        assert(shown.last() == sprite[to - 1]);
        lemma_blit_is_grid(g, x, y, above);
        if line_covers(x, y + to - 1, sprite[to - 1], 8, px, py) {
            let col = (px - x) % 64;
            assert(before[(x + col) % 64][(y + to - 1) % 32]);
            assert(cols_collide(before, x, y + to - 1, sprite[to - 1], 8));
            assert(collides(g, x, y, shown));
            lemma_collision_persists(g, x, y, sprite, to);
        }
    }
}

/// The first line of a sprite that has a set bit.
proof fn lemma_first_set_line(sprite: Seq<u8>) -> (first: int)
    requires
        has_set_bit(sprite),
    ensures
        0 <= first < sprite.len(),
        sprite[first] != 0,
        forall|k: int| 0 <= k < first ==> sprite[k] == 0,
    decreases sprite.len(),
{
    if sprite[0] != 0 {
        0
    } else {
        let some = choose|k: int| 0 <= k < sprite.len() && #[trigger] sprite[k] != 0;
        let below = sprite.subrange(1, sprite.len() as int);
        assert(below[some - 1] != 0);
        let first = lemma_first_set_line(below) + 1;
        assert(sprite[first] == below[first - 1]);
        assert forall|k: int| 0 <= k < first implies sprite[k] == 0 by {
            if k > 0 {
                assert(sprite[k] == below[k - 1]);
            }
        }
        first
    }
}

/// A byte other than zero has a set bit.
proof fn lemma_set_column(byte: u8) -> (col: int)
    requires
        byte != 0,
    ensures
        0 <= col < 8,
        sprite_bit(byte, col),
{
    assert(byte != 0 ==> (byte >> 7u8) & 1 == 1 || (byte >> 6u8) & 1 == 1 || (byte >> 5u8) & 1 == 1
        || (byte >> 4u8) & 1 == 1 || (byte >> 3u8) & 1 == 1 || (byte >> 2u8) & 1 == 1 || (byte
        >> 1u8) & 1 == 1 || (byte >> 0u8) & 1 == 1) by (bit_vector);
    if sprite_bit(byte, 0) {
        0
    } else if sprite_bit(byte, 1) {
        1
    } else if sprite_bit(byte, 2) {
        2
    } else if sprite_bit(byte, 3) {
        3
    } else if sprite_bit(byte, 4) {
        4
    } else if sprite_bit(byte, 5) {
        5
    } else if sprite_bit(byte, 6) {
        6
    } else {
        7
    }
}

/// If a sprite with a set bit was drawn without collision, drawing it again
/// at the same place collides.
pub proof fn law_second_draw_collides(g: Seq<Seq<bool>>, x: int, y: int, sprite: Seq<u8>)
    requires
        is_grid(g),
        has_set_bit(sprite),
        !collides(g, x, y, sprite),
    ensures
        collides(blit(g, x, y, sprite), x, y, sprite),
{
    let first = lemma_first_set_line(sprite);
    let col = lemma_set_column(sprite[first]);
    let px = (x + col) % 64;
    let py = (y + first) % 32;
    let above = sprite.take(first);
    let shown = sprite.take(first + 1);
    let once = blit(g, x, y, sprite);
    lemma_blit_is_grid(g, x, y, sprite);
    assert(shown.drop_last() =~= above);
    assert(shown.last() == sprite[first]);
    assert(line_covers(x, y + first, sprite[first], 8, px, py)) by {
        assert((px - x) % 64 == col);
    }

    // The pixel is off before the first draw reaches it, and on from then on.
    law_zero_sprite_draws_nothing(g, x, y, above);
    if g[px][py] {
        assert(cols_collide(g, x, y + first, sprite[first], 8));
        assert(collides(g, x, y, shown));
        lemma_collision_persists(g, x, y, sprite, first + 1);
    }
    assert(blit(g, x, y, shown)[px][py]);
    lemma_lit_pixel_stays(g, x, y, sprite, px, py, first + 1, sprite.len() as int);
    assert(sprite.take(sprite.len() as int) =~= sprite);
    assert(once[px][py]);

    // The second draw meets it with the same bit.
    law_zero_sprite_draws_nothing(once, x, y, above);
    assert(cols_collide(once, x, y + first, sprite[first], 8));
    assert(collides(once, x, y, shown));
    lemma_collision_persists(once, x, y, sprite, first + 1);
}

/// `8XY4` with X other than the flag register: register X receives the sum
/// of registers X and Y modulo 256, and the flag register becomes 1 if the
/// sum exceeds 255 and 0 if not. Every other register keeps its value.
pub proof fn law_add_sets_carry(m: Machine, x: u8, y: u8, random: u8)
    requires
        m.wf(),
        x < FLAG,
        y <= FLAG,
    ensures
        ({
            let a = m.reg(x);
            let b = m.reg(y);
            let outcome = execute(m, word_of_nibbles(8, x, y, 4), random);
            &&& outcome.machine.reg(x) == (a + b) % 256
            &&& outcome.machine.reg(FLAG as u8) == if a + b > 255 {
                1int
            } else {
                0int
            }
            &&& forall|r: u8| r < FLAG && r != x ==> outcome.machine.reg(r) == m.reg(r)
            &&& outcome.next_pc == m.pc + 2
        }),
{
    lemma_nibbles_of_word(8, x, y, 4);
}

/// `8XY5` with X other than the flag register: register X receives register
/// X minus register Y modulo 256, and the flag register becomes 0 if that
/// borrows (X holds less than Y) and 1 if not. Every other register keeps
/// its value.
pub proof fn law_sub_clears_flag_on_borrow(m: Machine, x: u8, y: u8, random: u8)
    requires
        m.wf(),
        x < FLAG,
        y <= FLAG,
    ensures
        ({
            let a = m.reg(x);
            let b = m.reg(y);
            let outcome = execute(m, word_of_nibbles(8, x, y, 5), random);
            &&& outcome.machine.reg(x) == (a - b) % 256
            &&& outcome.machine.reg(FLAG as u8) == if a < b {
                0int
            } else {
                1int
            }
            &&& forall|r: u8| r < FLAG && r != x ==> outcome.machine.reg(r) == m.reg(r)
            &&& outcome.next_pc == m.pc + 2
        }),
{
    lemma_nibbles_of_word(8, x, y, 5);
}

/// Only `CXNN` looks at the random byte.
pub proof fn law_random_byte_matters_to_cxnn_only(m: Machine, w: u16, r1: u8, r2: u8)
    requires
        nibble1(w) != 0xC,
    ensures
        execute(m, w, r1) == execute(m, w, r2),
{
}

/// Whether `w` is the instruction that waits for a key (`FX0A`).
pub open spec fn waits_for_key(w: u16) -> bool {
    nibble1(w) == 0xF && imm8(w) == 0x0A
}

/// Whether `w` is the instruction that loads the delay timer (`FX15`).
pub open spec fn loads_delay_timer(w: u16) -> bool {
    nibble1(w) == 0xF && imm8(w) == 0x15
}

/// Whether none of the steps of `run(m, randoms)` executes an instruction
/// that loads the delay timer.
pub open spec fn delay_timer_left_alone(m: Machine, randoms: Seq<u8>) -> bool {
    forall|k: int|
        0 <= k < randoms.len() ==> !loads_delay_timer(#[trigger] fetch(run(m, randoms.take(k))))
}

/// While the machine waits for a key and none is held, steps change nothing
/// but the timers: the program counter stays on the waiting instruction
/// however many steps are taken.
pub proof fn law_key_wait_stalls(m: Machine, randoms: Seq<u8>)
    requires
        waits_for_key(fetch(m)),
        m.keys_pressed.len() == 0,
    ensures
        ({
            let after = run(m, randoms);
            &&& after.pc == m.pc
            &&& after.keys_pressed.len() == 0
            &&& after == (Machine {
                delay_timer: after.delay_timer,
                sound_timer: after.sound_timer,
                timer_counter: after.timer_counter,
                ..m
            })
        }),
    decreases randoms.len(),
{
    if randoms.len() > 0 {
        law_key_wait_stalls(m, randoms.drop_last());
        let before = run(m, randoms.drop_last());
        assert(fetch(tick(before)) == fetch(m));
    }
}

/// Once a key is held, the step on a waiting instruction `FX0A` takes the
/// most recently pushed key off the key set, writes it into register X and
/// moves the program counter on by 2. This is stated for program counters
/// from which the machine keeps running.
pub proof fn law_key_wait_takes_key(m: Machine, random: u8)
    requires
        m.wf(),
        waits_for_key(fetch(m)),
        m.keys_pressed.len() > 0,
        m.pc + 2 <= HALT_BOUND,
    ensures
        ({
            let after = step(m, random);
            &&& keeps_running(m, random)
            &&& after.pc == m.pc + 2
            &&& after.reg(nibble2(fetch(m))) == m.keys_pressed.last()
            &&& after.keys_pressed == m.keys_pressed.drop_last()
        }),
{
    assert(fetch(tick(m)) == fetch(m));
}

/// A step paces the timers as the tick says, and changes the delay timer
/// beyond the tick only if its instruction loads it.
pub proof fn lemma_step_keeps_timers(m: Machine, random: u8)
    ensures
        step(m, random).timer_delay == m.timer_delay,
        step(m, random).timer_counter == tick(m).timer_counter,
        !loads_delay_timer(fetch(m)) ==> step(m, random).delay_timer == tick(m).delay_timer,
{
    assert(fetch(tick(m)) == fetch(m));
}

/// A step that does not load the delay timer, seen from the step counter:
/// when the counter reaches the period, the delay timer counts down and the
/// counter starts again; below the period, the delay timer keeps its value
/// and the counter goes up by one.
proof fn lemma_step_counts(m: Machine, random: u8)
    requires
        !loads_delay_timer(fetch(m)),
    ensures
        step(m, random).timer_delay == m.timer_delay,
        m.timer_counter + 1 == m.timer_delay ==> {
            &&& step(m, random).timer_counter == 0
            &&& step(m, random).delay_timer == count_down(m.delay_timer)
        },
        m.timer_counter + 1 < m.timer_delay ==> {
            &&& step(m, random).timer_counter == m.timer_counter + 1
            &&& step(m, random).delay_timer == m.delay_timer
        },
{
    lemma_step_keeps_timers(m, random);
}

/// If a run leaves the delay timer alone, so does the run without its last
/// step, and that last step does not load the delay timer either.
proof fn lemma_left_alone_earlier(m: Machine, randoms: Seq<u8>)
    requires
        randoms.len() > 0,
        delay_timer_left_alone(m, randoms),
    ensures
        delay_timer_left_alone(m, randoms.drop_last()),
        !loads_delay_timer(fetch(run(m, randoms.drop_last()))),
{
    let earlier = randoms.drop_last();
    assert forall|k: int| 0 <= k < earlier.len() implies !loads_delay_timer(
        #[trigger] fetch(run(m, earlier.take(k))),
    ) by {
        assert(earlier.take(k) =~= randoms.take(k));
    }
    assert(randoms.take(earlier.len() as int) =~= earlier);
}

/// The timers over at most one period's worth of steps, none of which loads
/// the delay timer: up to the end of the running period the delay timer
/// keeps its value and the step counter counts the steps; from the step that
/// ends the period on, the delay timer is one tick further and the step
/// counter counts from 0 again.
proof fn lemma_at_most_one_period(m: Machine, randoms: Seq<u8>)
    requires
        m.timer_counter < m.timer_delay,
        randoms.len() <= m.timer_delay,
        delay_timer_left_alone(m, randoms),
    ensures
        run(m, randoms).timer_delay == m.timer_delay,
        m.timer_counter + randoms.len() < m.timer_delay ==> {
            &&& run(m, randoms).timer_counter == m.timer_counter + randoms.len()
            &&& run(m, randoms).delay_timer == m.delay_timer
        },
        m.timer_counter + randoms.len() >= m.timer_delay ==> {
            &&& run(m, randoms).timer_counter == m.timer_counter + randoms.len() - m.timer_delay
            &&& run(m, randoms).delay_timer == count_down(m.delay_timer)
        },
    decreases randoms.len(),
{
    if randoms.len() > 0 {
        lemma_left_alone_earlier(m, randoms);
        lemma_at_most_one_period(m, randoms.drop_last());
        lemma_step_counts(run(m, randoms.drop_last()), randoms.last());
    }
}

/// With the timers paced for `rate` instructions per second, `rate / 60`
/// steps count the delay timer down by exactly one (a timer at 0 stays at
/// 0), and leave the step counter where it was, provided none of these steps
/// loads the delay timer. This is stated for machines whose step counter is
/// inside the period, as it is from the first step of a machine on, which
/// asks for a rate of at least 60.
pub proof fn law_delay_timer_counts_down_once_per_period(
    m: Machine,
    rate: u32,
    randoms: Seq<u8>,
)
    requires
        m.timer_delay == rate / TIMER_HZ,
        m.timer_counter < m.timer_delay,
        randoms.len() == rate / TIMER_HZ,
        delay_timer_left_alone(m, randoms),
    ensures
        run(m, randoms).delay_timer == count_down(m.delay_timer),
        run(m, randoms).timer_counter == m.timer_counter,
{
    lemma_at_most_one_period(m, randoms);
}

/// A delay timer at 0 stays at 0 however many steps are taken, provided
/// none of them loads it: the timers never wrap below zero.
pub proof fn law_delay_timer_stays_at_zero(m: Machine, randoms: Seq<u8>)
    requires
        m.delay_timer == 0,
        delay_timer_left_alone(m, randoms),
    ensures
        run(m, randoms).delay_timer == 0,
    decreases randoms.len(),
{
    if randoms.len() > 0 {
        lemma_left_alone_earlier(m, randoms);
        law_delay_timer_stays_at_zero(m, randoms.drop_last());
        lemma_step_keeps_timers(run(m, randoms.drop_last()), randoms.last());
    }
}

/// A step keeps the sizes of memory, registers and screen, provided the
/// instruction it executes stays inside memory.
pub proof fn law_step_keeps_shape(m: Machine, random: u8)
    requires
        can_step(m),
    ensures
        step(m, random).wf(),
        keeps_running(m, random) ==> step(m, random).pc <= HALT_BOUND,
{
    let ticked = tick(m);
    let w = fetch(ticked);
    assert(w == fetch(m));
    if nibble1(w) == 0xD {
        lemma_blit_is_grid(
            ticked.screen,
            ticked.reg(nibble2(w)) as int,
            ticked.reg(nibble3(w)) as int,
            sprite_at_index(ticked, nibble4(w) as int),
        );
    }
}

} // verus!
