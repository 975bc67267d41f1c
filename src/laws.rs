//! Properties of the instruction set, proved over the model.
use vstd::prelude::*;

use crate::machine::{
    decode, execute, fault_of, first_pressed, sprite_bit, step, Fault, KeyWait, Machine, Nibbles,
    FLAG, KEY_COUNT, MEMORY_SIZE, REGISTER_COUNT, SCREEN_HEIGHT, SCREEN_WIDTH, STACK_SIZE,
};

verus! {

/// The instruction word with nibbles `f`, `x`, `y`, `n` from high to low.
pub open spec fn word(f: int, x: int, y: int, n: int) -> u16 {
    (f * 4096 + x * 256 + y * 16 + n) as u16
}

/// Decoding a word built from four nibbles gives those nibbles back.
pub proof fn lemma_decode_word(f: int, x: int, y: int, n: int)
    requires
        0 <= f < 16,
        0 <= x < 16,
        0 <= y < 16,
        0 <= n < 16,
    ensures
        decode(word(f, x, y, n)) == (Nibbles {
            first_bite: f as u8,
            nnn: (x * 256 + y * 16 + n) as usize,
            nibble: n as u8,
            x: x as usize,
            y: y as usize,
            kk: (y * 16 + n) as u8,
        }),
{
    let w = f * 4096 + x * 256 + y * 16 + n;
    assert(0 <= w < 65536);
    assert(w / 4096 == f);
    assert(w % 4096 == x * 256 + y * 16 + n);
    assert(w % 16 == n);
    assert((w / 256) % 16 == x);
    assert((w / 16) % 16 == y);
    assert(w % 256 == y * 16 + n);
}

/// `6xkk` followed by `7xkk'` on the same register leaves `kk + kk'` modulo 256 in it.
pub proof fn law_load_then_add(m: Machine, x: usize, kk1: u8, kk2: u8, random1: u8, random2: u8)
    requires
        m.wf(),
        x < REGISTER_COUNT,
    ensures
        execute(
            execute(m, decode(word(6, x as int, (kk1 / 16) as int, (kk1 % 16) as int)), random1),
            decode(word(7, x as int, (kk2 / 16) as int, (kk2 % 16) as int)),
            random2,
        ).v[x as int] == (kk1 + kk2) % 256,
{
    lemma_decode_word(6, x as int, (kk1 / 16) as int, (kk1 % 16) as int);
    lemma_decode_word(7, x as int, (kk2 / 16) as int, (kk2 % 16) as int);
}

/// `8xy4` sets the flag register to 1 exactly when Vx + Vy exceeds 255, and
/// keeps the low eight bits of the sum in Vx unless Vx is the flag register.
pub proof fn law_add_carry(m: Machine, x: usize, y: usize, random: u8)
    requires
        m.wf(),
        x < REGISTER_COUNT,
        y < REGISTER_COUNT,
    ensures
        ({
            let after = execute(m, decode(word(8, x as int, y as int, 4)), random);
            &&& after.v[FLAG as int] == (if m.v[x as int] + m.v[y as int] > 255 {
                1u8
            } else {
                0u8
            })
            &&& x != FLAG ==> after.v[x as int] == (m.v[x as int] + m.v[y as int]) % 256
        }),
{
    lemma_decode_word(8, x as int, y as int, 4);
}

/// The flags of `8xy5` and `8xy7` compare the operands as they were before the
/// instruction, whatever the wrapped difference is.
pub proof fn law_subtract_flags(m: Machine, x: usize, y: usize, random: u8)
    requires
        m.wf(),
        x < REGISTER_COUNT,
        y < REGISTER_COUNT,
    ensures
        ({
            let sub = execute(m, decode(word(8, x as int, y as int, 5)), random);
            let subn = execute(m, decode(word(8, x as int, y as int, 7)), random);
            &&& sub.v[FLAG as int] == (if m.v[x as int] > m.v[y as int] {
                1u8
            } else {
                0u8
            })
            &&& subn.v[FLAG as int] == (if m.v[y as int] > m.v[x as int] {
                1u8
            } else {
                0u8
            })
            &&& x != FLAG ==> sub.v[x as int] == (m.v[x as int] - m.v[y as int]) % 256
            &&& x != FLAG ==> subn.v[x as int] == (m.v[y as int] - m.v[x as int]) % 256
        }),
{
    lemma_decode_word(8, x as int, y as int, 5);
    lemma_decode_word(8, x as int, y as int, 7);
}

/// At any depth below the stack's capacity, `2nnn` followed by `00EE` returns to
/// the address after the call, with the stack depth restored.
pub proof fn law_call_then_return(m: Machine, nnn: usize, random1: u8, random2: u8)
    requires
        m.wf(),
        m.sp < STACK_SIZE,
        nnn < MEMORY_SIZE,
    ensures
        ({
            let call = decode(word(2, (nnn / 256) as int, ((nnn / 16) % 16) as int, (nnn % 16) as int));
            let ret = decode(word(0, 0, 0xE, 0xE));
            let inside = execute(m, call, random1);
            let back = execute(inside, ret, random2);
            &&& fault_of(m, call) is None
            &&& inside.pc == nnn
            &&& inside.sp == m.sp + 1
            &&& fault_of(inside, ret) is None
            &&& back.pc == (m.pc + 2) % (MEMORY_SIZE as nat)
            &&& back.sp == m.sp
        }),
{
    lemma_nnn_nibbles(nnn);
    lemma_decode_word(2, (nnn / 256) as int, ((nnn / 16) % 16) as int, (nnn % 16) as int);
    lemma_decode_word(0, 0, 0xE, 0xE);
}

/// An address splits into three nibbles that put it back together.
pub proof fn lemma_nnn_nibbles(nnn: usize)
    requires
        nnn < MEMORY_SIZE,
    ensures
        nnn / 256 < 16,
        (nnn / 256) * 256 + ((nnn / 16) % 16) * 16 + nnn % 16 == nnn,
{
}

/// A call with all stack slots in use, or a return with none, is a fault and
/// does not run.
pub proof fn law_stack_bounds(m: Machine, nnn: usize)
    requires
        m.wf(),
        nnn < MEMORY_SIZE,
    ensures
        m.sp == STACK_SIZE ==> fault_of(
            m,
            decode(word(2, (nnn / 256) as int, ((nnn / 16) % 16) as int, (nnn % 16) as int)),
        ) == Some(Fault::StackOverflow),
        m.sp == 0 ==> fault_of(m, decode(word(0, 0, 0xE, 0xE))) == Some(Fault::StackUnderflow),
{
    lemma_nnn_nibbles(nnn);
    lemma_decode_word(2, (nnn / 256) as int, ((nnn / 16) % 16) as int, (nnn % 16) as int);
    lemma_decode_word(0, 0, 0xE, 0xE);
}

/// Drawing the same sprite at the same place twice restores the frame buffer,
/// and the second draw sets the flag exactly when it turns a pixel off. The
/// coordinates must not sit in the flag register, which the first draw overwrites.
pub proof fn law_draw_twice(m: Machine, x: usize, y: usize, n: usize, random1: u8, random2: u8)
    requires
        m.wf(),
        x < REGISTER_COUNT,
        y < REGISTER_COUNT,
        n < 16,
        x != FLAG,
        y != FLAG,
    ensures
        ({
            let draw = decode(word(0xD, x as int, y as int, n as int));
            let once = execute(m, draw, random1);
            let twice = execute(once, draw, random2);
            &&& twice.gfx == m.gfx
            &&& (twice.v[FLAG as int] == 1) == exists|r: int, c: int|
                0 <= r < SCREEN_HEIGHT && 0 <= c < SCREEN_WIDTH && #[trigger] once.gfx[r][c] == 1
                    && #[trigger] twice.gfx[r][c] == 0
        }),
{
    lemma_decode_word(0xD, x as int, y as int, n as int);
    let draw = decode(word(0xD, x as int, y as int, n as int));
    let once = execute(m, draw, random1);
    let twice = execute(once, draw, random2);
    let vx = m.v[x as int];
    let vy = m.v[y as int];
    assert(once.v[x as int] == vx && once.v[y as int] == vy);
    assert forall|r: int, c: int|
        0 <= r < SCREEN_HEIGHT && 0 <= c < SCREEN_WIDTH implies #[trigger] sprite_bit(
        once,
        vx,
        vy,
        n as int,
        r,
        c,
    ) == sprite_bit(m, vx, vy, n as int, r, c) && sprite_bit(m, vx, vy, n as int, r, c) <= 1 by {
        let row = (r - vy) % (SCREEN_HEIGHT as int);
        let col = (c - vx) % (SCREEN_WIDTH as int);
        if row < n && col < 8 {
            let b = m.memory[(m.i + row) % (MEMORY_SIZE as int)];
            let k = (7 - col) as u8;
            assert((b >> k) & 1u8 <= 1) by (bit_vector);
        }
    }
    assert forall|r: int| 0 <= r < SCREEN_HEIGHT implies #[trigger] twice.gfx[r] =~= m.gfx[r] by {
        assert forall|c: int| 0 <= c < SCREEN_WIDTH implies twice.gfx[r][c] == m.gfx[r][c] by {
            let g = m.gfx[r][c];
            let s = sprite_bit(m, vx, vy, n as int, r, c);
            assert((g ^ s) ^ s == g) by (bit_vector);
        }
    }
    assert(twice.gfx =~= m.gfx);
    assert forall|r: int, c: int|
        0 <= r < SCREEN_HEIGHT && 0 <= c < SCREEN_WIDTH implies (#[trigger] once.gfx[r][c] == 1
        && #[trigger] twice.gfx[r][c] == 0) == (sprite_bit(once, vx, vy, n as int, r, c) == 1
        && once.gfx[r][c] == 1) by {
        let g = once.gfx[r][c];
        let s = sprite_bit(once, vx, vy, n as int, r, c);
        assert(twice.gfx[r][c] == g ^ s);
        assert(g <= 1 && s <= 1 ==> ((g == 1 && g ^ s == 0) == (s == 1 && g == 1))) by (bit_vector);
    }
}

/// The lowest held key at or after `from` is `k` when `k` is held and no key
/// between `from` and `k` is; it is `KEY_COUNT` when none from `from` on is held.
pub proof fn lemma_first_pressed(keys: Seq<bool>, from: int, k: int)
    requires
        0 <= from <= k <= KEY_COUNT,
        keys.len() == KEY_COUNT,
        forall|j: int| from <= j < k ==> !keys[j],
        k == KEY_COUNT || keys[k],
    ensures
        first_pressed(keys, from) == k,
    decreases k - from,
{
    if from < k {
        lemma_first_pressed(keys, from + 1, k);
    }
}

/// While the machine waits for a key and none is held, a cycle runs no
/// instruction: the counter stays, the timers do not count down, and only the
/// recorded keys and the redraw flag change. Once keys are held, the lowest one
/// goes into the waiting register and the machine runs again, still without
/// running an instruction in that cycle.
pub proof fn law_key_wait(m: Machine, keys: Seq<bool>, random: u8)
    requires
        m.wf(),
        m.wait is WaitingForKey,
        keys.len() == KEY_COUNT,
    ensures
        (forall|k: int| 0 <= k < KEY_COUNT ==> !keys[k]) ==> step(m, keys, random) == Ok::<
            (Machine, bool),
            Fault,
        >((Machine { keys: keys, draw: false, ..m }, false)),
        forall|k: int|
            0 <= k < KEY_COUNT && #[trigger] keys[k] && (forall|j: int| 0 <= j < k ==> !keys[j])
                ==> step(m, keys, random) == Ok::<(Machine, bool), Fault>(
                (
                    Machine {
                        v: m.v.update(m.wait->WaitingForKey_0 as int, k as u8),
                        keys: keys,
                        wait: KeyWait::Running,
                        draw: false,
                        ..m
                    },
                    false,
                ),
            ),
{
    if forall|k: int| 0 <= k < KEY_COUNT ==> !keys[k] {
        lemma_first_pressed(keys, 0, KEY_COUNT as int);
    }
    assert forall|k: int|
        0 <= k < KEY_COUNT && #[trigger] keys[k] && (forall|j: int| 0 <= j < k ==> !keys[j])
            implies step(m, keys, random) == Ok::<(Machine, bool), Fault>(
        (
            Machine {
                v: m.v.update(m.wait->WaitingForKey_0 as int, k as u8),
                keys: keys,
                wait: KeyWait::Running,
                draw: false,
                ..m
            },
            false,
        ),
    ) by {
        lemma_first_pressed(keys, 0, k);
    }
}

} // verus!
