//! The instruction semantics, one function per instruction. Each leaves the
//! program counter on the instruction itself unless it jumps or skips; the
//! dispatcher in `cycle` moves past it.
use vstd::prelude::*;

use crate::chip8::{screen_view, Chip8};
use crate::machine::{
    addr, blank_screen, op_00e0, op_00ee, op_1nnn, op_2nnn, op_3xkk, op_4xkk, op_5xy0, op_6xkk,
    op_7xkk, op_8xy0, op_8xy1, op_8xy2, op_8xy3, op_8xy4, op_8xy5, op_8xy6, op_8xy7, op_8xye,
    op_9xy0, op_annn, op_bnnn, op_cxkk, op_dxyn, op_ex9e, op_exa1, op_fx07, op_fx0a, op_fx15, op_fx18,
    op_fx1e, op_fx29, op_fx33, op_fx55, op_fx65, screen_wf, KeyWait, Machine, FLAG, KEY_COUNT,
    MEMORY_SIZE, REGISTER_COUNT, SCREEN_HEIGHT, SCREEN_WIDTH, STACK_SIZE, collides, drawn, sprite_bit,
};

verus! {

/// On a wrapped axis of length `len`, position `r` lies `k` steps after `v`
/// exactly when it is the wrapped position of `v + k`.
proof fn lemma_wrapped_offset(v: int, k: int, r: int, len: int)
    requires
        len == SCREEN_HEIGHT || len == SCREEN_WIDTH,
        0 <= k < len,
        0 <= r < len,
        0 <= v < 256,
    ensures
        ((r - v) % len == k) <==> (r == (v + k) % len),
{
    if len == SCREEN_HEIGHT {
        assert(((r - v) % 32 == k) <==> (r == (v + k) % 32)) by (nonlinear_arith)
            requires
                0 <= k < 32,
                0 <= r < 32,
                0 <= v < 256,
        ;
    } else {
        assert(((r - v) % 64 == k) <==> (r == (v + k) % 64)) by (nonlinear_arith)
            requires
                0 <= k < 64,
                0 <= r < 64,
                0 <= v < 256,
        ;
    }
}

/// The pixel reached one bit later is the one at the wrapped position of
/// (`vy` + `byte`, `vx` + `bit`), and it was not reached before.
proof fn lemma_reach_next(vx: u8, vy: u8, byte: int, bit: int, r: int, c: int)
    requires
        0 <= byte < 16,
        0 <= bit < 8,
        0 <= r < SCREEN_HEIGHT,
        0 <= c < SCREEN_WIDTH,
    ensures
        reached(vx, vy, byte, bit + 1, r, c) <==> (reached(vx, vy, byte, bit, r, c) || (r == (vy
            + byte) % (SCREEN_HEIGHT as int) && c == (vx + bit) % (SCREEN_WIDTH as int))),
        !reached(vx, vy, byte, bit, (vy + byte) % (SCREEN_HEIGHT as int), (vx + bit) % (
        SCREEN_WIDTH as int)),
{
    lemma_wrapped_offset(vy as int, byte, r, SCREEN_HEIGHT as int);
    lemma_wrapped_offset(vx as int, bit, c, SCREEN_WIDTH as int);
    lemma_wrapped_offset(vy as int, byte, (vy + byte) % (SCREEN_HEIGHT as int), SCREEN_HEIGHT as int);
    lemma_wrapped_offset(vx as int, bit, (vx + bit) % (SCREEN_WIDTH as int), SCREEN_WIDTH as int);
}

/// Whether a sprite draw that has finished `rows` rows, and `bits` bits of the
/// next one, has already reached pixel (`r`, `c`).
spec fn reached(vx: u8, vy: u8, rows: int, bits: int, r: int, c: int) -> bool {
    let row = (r - vy) % (SCREEN_HEIGHT as int);
    let col = (c - vx) % (SCREEN_WIDTH as int);
    row < rows || (row == rows && col < bits)
}

/// The frame buffer of `m` with the sprite laid over the reached pixels only.
spec fn partly_drawn(m: Machine, vx: u8, vy: u8, n: int, rows: int, bits: int, r: int, c: int) -> u8 {
    m.gfx[r][c] ^ if reached(vx, vy, rows, bits, r, c) {
        sprite_bit(m, vx, vy, n, r, c)
    } else {
        0u8
    }
}

/// Whether the reached part of the sprite turns off a pixel that is on.
spec fn partly_collides(m: Machine, vx: u8, vy: u8, n: int, rows: int, bits: int) -> bool {
    exists|r: int, c: int|
        0 <= r < SCREEN_HEIGHT && 0 <= c < SCREEN_WIDTH && reached(vx, vy, rows, bits, r, c)
            && #[trigger] sprite_bit(m, vx, vy, n, r, c) == 1 && #[trigger] m.gfx[r][c] == 1
}

impl Chip8 {
    /// Moves the program counter one instruction on, wrapping at the end of memory.
    pub(crate) fn advance_pc(&mut self)
        requires
            old(self)@.wf(),
        ensures
            final(self)@ == old(self)@.advance(),
            final(self)@.wf(),
    {
        self.pc = (self.pc + 2) % MEMORY_SIZE;
    }

    /// CLS: clears the frame buffer.
    pub(crate) fn exec_00e0(&mut self)
        requires
            old(self)@.wf(),
        ensures
            final(self)@ == op_00e0(old(self)@),
            final(self)@.wf(),
    {
        let mut row: usize = 0;
        while row < SCREEN_HEIGHT
            invariant
                row <= SCREEN_HEIGHT,
                self@ == (Machine { gfx: self@.gfx, ..old(self)@ }),
                screen_wf(self@.gfx),
                forall|r: int| 0 <= r < row ==> #[trigger] self@.gfx[r] == blank_screen()[r],
            decreases SCREEN_HEIGHT - row,
        {
            let ghost before = self.resources.gfx;
            self.resources.gfx[row] = [0u8; 64];
            assert(self.resources.gfx[row as int]@ =~= blank_screen()[row as int]);
            assert(screen_view(self.resources.gfx) =~= screen_view(before).update(
                row as int,
                blank_screen()[row as int],
            ));
            row = row + 1;
        }
        assert(self@.gfx =~= blank_screen());
        self.resources.draw_flag = true;
    }

    /// RET: returns from a subroutine.
    pub(crate) fn exec_00ee(&mut self)
        requires
            old(self)@.wf(),
            old(self)@.sp > 0,
        ensures
            final(self)@ == op_00ee(old(self)@),
            final(self)@.wf(),
    {
        self.sp = self.sp - 1;
        self.pc = self.stack[self.sp] as usize;
    }

    /// JP addr: jumps to `nnn`.
    pub(crate) fn exec_1nnn(&mut self, nnn: usize)
        requires
            old(self)@.wf(),
            nnn < MEMORY_SIZE,
        ensures
            final(self)@ == op_1nnn(old(self)@, nnn as int),
            final(self)@.wf(),
    {
        self.pc = nnn;
    }

    /// CALL addr: pushes the address after this instruction and jumps to `nnn`.
    pub(crate) fn exec_2nnn(&mut self, nnn: usize)
        requires
            old(self)@.wf(),
            old(self)@.sp < STACK_SIZE,
            nnn < MEMORY_SIZE,
        ensures
            final(self)@ == op_2nnn(old(self)@, nnn as int),
            final(self)@.wf(),
    {
        self.stack[self.sp] = ((self.pc + 2) % MEMORY_SIZE) as u16;
        self.sp = self.sp + 1;
        self.pc = nnn;
    }

    /// SE Vx, byte: skips the next instruction if Vx equals `kk`.
    pub(crate) fn exec_3xkk(&mut self, x: usize, kk: u8)
        requires
            old(self)@.wf(),
            x < REGISTER_COUNT,
        ensures
            final(self)@ == op_3xkk(old(self)@, x as int, kk),
            final(self)@.wf(),
    {
        if self.v_registers[x] == kk {
            self.advance_pc();
        }
    }

    /// SNE Vx, byte: skips the next instruction if Vx differs from `kk`.
    pub(crate) fn exec_4xkk(&mut self, x: usize, kk: u8)
        requires
            old(self)@.wf(),
            x < REGISTER_COUNT,
        ensures
            final(self)@ == op_4xkk(old(self)@, x as int, kk),
            final(self)@.wf(),
    {
        if self.v_registers[x] != kk {
            self.advance_pc();
        }
    }

    /// SE Vx, Vy: skips the next instruction if Vx equals Vy.
    pub(crate) fn exec_5xy0(&mut self, x: usize, y: usize)
        requires
            old(self)@.wf(),
            x < REGISTER_COUNT,
            y < REGISTER_COUNT,
        ensures
            final(self)@ == op_5xy0(old(self)@, x as int, y as int),
            final(self)@.wf(),
    {
        if self.v_registers[x] == self.v_registers[y] {
            self.advance_pc();
        }
    }

    /// LD Vx, byte.
    pub(crate) fn exec_6xkk(&mut self, x: usize, kk: u8)
        requires
            old(self)@.wf(),
            x < REGISTER_COUNT,
        ensures
            final(self)@ == op_6xkk(old(self)@, x as int, kk),
            final(self)@.wf(),
    {
        self.v_registers[x] = kk;
    }

    /// ADD Vx, byte: wraps, sets no flag.
    pub(crate) fn exec_7xkk(&mut self, x: usize, kk: u8)
        requires
            old(self)@.wf(),
            x < REGISTER_COUNT,
        ensures
            final(self)@ == op_7xkk(old(self)@, x as int, kk),
            final(self)@.wf(),
    {
        let sum = self.v_registers[x] as u16 + kk as u16;
        self.v_registers[x] = (sum % 256) as u8;
    }

    /// LD Vx, Vy.
    pub(crate) fn exec_8xy0(&mut self, x: usize, y: usize)
        requires
            old(self)@.wf(),
            x < REGISTER_COUNT,
            y < REGISTER_COUNT,
        ensures
            final(self)@ == op_8xy0(old(self)@, x as int, y as int),
            final(self)@.wf(),
    {
        self.v_registers[x] = self.v_registers[y];
    }

    /// OR Vx, Vy.
    pub(crate) fn exec_8xy1(&mut self, x: usize, y: usize)
        requires
            old(self)@.wf(),
            x < REGISTER_COUNT,
            y < REGISTER_COUNT,
        ensures
            final(self)@ == op_8xy1(old(self)@, x as int, y as int),
            final(self)@.wf(),
    {
        self.v_registers[x] = self.v_registers[x] | self.v_registers[y];
    }

    /// AND Vx, Vy.
    pub(crate) fn exec_8xy2(&mut self, x: usize, y: usize)
        requires
            old(self)@.wf(),
            x < REGISTER_COUNT,
            y < REGISTER_COUNT,
        ensures
            final(self)@ == op_8xy2(old(self)@, x as int, y as int),
            final(self)@.wf(),
    {
        self.v_registers[x] = self.v_registers[x] & self.v_registers[y];
    }

    /// XOR Vx, Vy.
    pub(crate) fn exec_8xy3(&mut self, x: usize, y: usize)
        requires
            old(self)@.wf(),
            x < REGISTER_COUNT,
            y < REGISTER_COUNT,
        ensures
            final(self)@ == op_8xy3(old(self)@, x as int, y as int),
            final(self)@.wf(),
    {
        self.v_registers[x] = self.v_registers[x] ^ self.v_registers[y];
    }

    /// Writes `value` into Vx and then the flag into VF.
    fn store_with_flag(&mut self, x: usize, value: u8, flag: bool)
        requires
            old(self)@.wf(),
            x < REGISTER_COUNT,
        ensures
            final(self)@ == old(self)@.set_v_flag(x as int, value, flag),
            final(self)@.wf(),
    {
        self.v_registers[x] = value;
        self.v_registers[FLAG] = if flag {
            1
        } else {
            0
        };
    }

    /// ADD Vx, Vy: VF is the carry out of the 8-bit sum.
    pub(crate) fn exec_8xy4(&mut self, x: usize, y: usize)
        requires
            old(self)@.wf(),
            x < REGISTER_COUNT,
            y < REGISTER_COUNT,
        ensures
            final(self)@ == op_8xy4(old(self)@, x as int, y as int),
            final(self)@.wf(),
    {
        let sum = self.v_registers[x] as u16 + self.v_registers[y] as u16;
        self.store_with_flag(x, (sum % 256) as u8, sum > 0xFF);
    }

    /// SUB Vx, Vy: VF is 1 when Vx > Vy, taken before the subtraction.
    pub(crate) fn exec_8xy5(&mut self, x: usize, y: usize)
        requires
            old(self)@.wf(),
            x < REGISTER_COUNT,
            y < REGISTER_COUNT,
        ensures
            final(self)@ == op_8xy5(old(self)@, x as int, y as int),
            final(self)@.wf(),
    {
        let v_x = self.v_registers[x];
        let v_y = self.v_registers[y];
        self.store_with_flag(x, v_x.wrapping_sub(v_y), v_x > v_y);
    }

    /// SHR Vx: VF is the bit shifted out.
    pub(crate) fn exec_8xy6(&mut self, x: usize)
        requires
            old(self)@.wf(),
            x < REGISTER_COUNT,
        ensures
            final(self)@ == op_8xy6(old(self)@, x as int),
            final(self)@.wf(),
    {
        let v_x = self.v_registers[x];
        self.store_with_flag(x, v_x / 2, v_x % 2 == 1);
    }

    /// SUBN Vx, Vy: Vx becomes Vy - Vx; VF is 1 when Vy > Vx, taken before.
    pub(crate) fn exec_8xy7(&mut self, x: usize, y: usize)
        requires
            old(self)@.wf(),
            x < REGISTER_COUNT,
            y < REGISTER_COUNT,
        ensures
            final(self)@ == op_8xy7(old(self)@, x as int, y as int),
            final(self)@.wf(),
    {
        let v_x = self.v_registers[x];
        let v_y = self.v_registers[y];
        self.store_with_flag(x, v_y.wrapping_sub(v_x), v_y > v_x);
    }

    /// SHL Vx: VF is the bit shifted out.
    pub(crate) fn exec_8xye(&mut self, x: usize)
        requires
            old(self)@.wf(),
            x < REGISTER_COUNT,
        ensures
            final(self)@ == op_8xye(old(self)@, x as int),
            final(self)@.wf(),
    {
        let v_x = self.v_registers[x];
        self.store_with_flag(x, ((v_x as u16 * 2) % 256) as u8, v_x >= 128);
    }

    /// SNE Vx, Vy: skips the next instruction if Vx differs from Vy.
    pub(crate) fn exec_9xy0(&mut self, x: usize, y: usize)
        requires
            old(self)@.wf(),
            x < REGISTER_COUNT,
            y < REGISTER_COUNT,
        ensures
            final(self)@ == op_9xy0(old(self)@, x as int, y as int),
            final(self)@.wf(),
    {
        if self.v_registers[x] != self.v_registers[y] {
            self.advance_pc();
        }
    }

    /// LD I, addr.
    pub(crate) fn exec_annn(&mut self, nnn: u16)
        requires
            old(self)@.wf(),
        ensures
            final(self)@ == op_annn(old(self)@, nnn as int),
            final(self)@.wf(),
    {
        self.i_reg = nnn;
    }

    /// JP V0, addr: jumps to `nnn` plus V0, wrapping at the end of memory.
    pub(crate) fn exec_bnnn(&mut self, nnn: usize)
        requires
            old(self)@.wf(),
            nnn < MEMORY_SIZE,
        ensures
            final(self)@ == op_bnnn(old(self)@, nnn as int),
            final(self)@.wf(),
    {
        self.pc = (nnn + self.v_registers[0] as usize) % MEMORY_SIZE;
    }

    /// RND Vx, byte: Vx becomes `random` AND `kk`.
    pub(crate) fn exec_cxkk(&mut self, x: usize, kk: u8, random: u8)
        requires
            old(self)@.wf(),
            x < REGISTER_COUNT,
        ensures
            final(self)@ == op_cxkk(old(self)@, x as int, kk, random),
            final(self)@.wf(),
    {
        self.v_registers[x] = random & kk;
    }

    /// Lays row `byte` of the sprite over the screen; the result is whether the
    /// draw so far turned off a pixel.
    fn draw_sprite_row(
        &mut self,
        m: Ghost<Machine>,
        vx: u8,
        vy: u8,
        n: usize,
        byte: usize,
        collided: bool,
    ) -> (r: bool)
        requires
            m@.wf(),
            byte < n,
            n < 16,
            old(self)@ == (Machine { gfx: old(self)@.gfx, ..m@ }),
            screen_wf(old(self)@.gfx),
            forall|r: int, c: int|
                0 <= r < SCREEN_HEIGHT && 0 <= c < SCREEN_WIDTH ==> #[trigger] old(self)@.gfx[r][c]
                    == partly_drawn(m@, vx, vy, n as int, byte as int, 0, r, c),
            collided == partly_collides(m@, vx, vy, n as int, byte as int, 0),
        ensures
            final(self)@ == (Machine { gfx: final(self)@.gfx, ..m@ }),
            screen_wf(final(self)@.gfx),
            forall|r: int, c: int|
                0 <= r < SCREEN_HEIGHT && 0 <= c < SCREEN_WIDTH ==> #[trigger] final(self)@.gfx[r][c]
                    == partly_drawn(m@, vx, vy, n as int, byte as int, 8, r, c),
            r == partly_collides(m@, vx, vy, n as int, byte as int, 8),
    {
        let ghost m = m@;
        let row = (vy as usize + byte) % SCREEN_HEIGHT;
        let sprite = self.memory[(self.i_reg as usize + byte) % MEMORY_SIZE];
        let mut collided = collided;
        let mut bit: usize = 0;
        while bit < 8
            invariant
                m.wf(),
                byte < n,
                n < 16,
                bit <= 8,
                row == (vy + byte) % (SCREEN_HEIGHT as int),
                sprite == m.memory[addr(m.i as int, byte as int)],
                self@ == (Machine { gfx: self@.gfx, ..m }),
                screen_wf(self@.gfx),
                forall|r: int, c: int|
                    0 <= r < SCREEN_HEIGHT && 0 <= c < SCREEN_WIDTH ==> #[trigger] self@.gfx[r][c]
                        == partly_drawn(m, vx, vy, n as int, byte as int, bit as int, r, c),
                collided == partly_collides(m, vx, vy, n as int, byte as int, bit as int),
            decreases 8 - bit,
        {
            let col = (vx as usize + bit) % SCREEN_WIDTH;
            let color = (sprite >> ((7 - bit) as u8)) & 1u8;
            let pixel = self.resources.gfx[row][col];
            proof {
                lemma_reach_next(vx, vy, byte as int, bit as int, row as int, col as int);
                assert(color == sprite_bit(m, vx, vy, n as int, row as int, col as int));
                assert(color <= 1) by (bit_vector)
                    requires
                        color == (sprite >> ((7 - bit) as u8)) & 1u8,
                ;
                assert(self@.gfx[row as int][col as int] == partly_drawn(
                    m,
                    vx,
                    vy,
                    n as int,
                    byte as int,
                    bit as int,
                    row as int,
                    col as int,
                ));
                assert(pixel == self@.gfx[row as int][col as int]);
                assert(!reached(vx, vy, byte as int, bit as int, row as int, col as int));
                let g = m.gfx[row as int][col as int];
                assert(g ^ 0u8 == g) by (bit_vector);
                assert(pixel == g);
            }
            if color == 1 && pixel == 1 {
                collided = true;
            }
            let ghost before = self.resources.gfx;
            let mut line = self.resources.gfx[row];
            line[col] = pixel ^ color;
            self.resources.gfx[row] = line;
            proof {
                let new_pixel = pixel ^ color;
                assert(new_pixel <= 1) by (bit_vector)
                    requires
                        new_pixel == pixel ^ color,
                        pixel <= 1,
                        color <= 1,
                ;
                assert(screen_view(self.resources.gfx) =~= screen_view(before).update(
                    row as int,
                    screen_view(before)[row as int].update(col as int, new_pixel),
                ));
                assert forall|r: int, c: int|
                    0 <= r < SCREEN_HEIGHT && 0 <= c < SCREEN_WIDTH implies #[trigger] self@.gfx[r][c]
                    == partly_drawn(m, vx, vy, n as int, byte as int, bit + 1, r, c) by {
                    lemma_reach_next(vx, vy, byte as int, bit as int, r, c);
                }
                if collided {
                    if color == 1 && pixel == 1 {
                        assert(reached(vx, vy, byte as int, bit + 1, row as int, col as int));
                    } else {
                        let (r, c) = choose|r: int, c: int|
                            0 <= r < SCREEN_HEIGHT && 0 <= c < SCREEN_WIDTH && reached(
                                vx,
                                vy,
                                byte as int,
                                bit as int,
                                r,
                                c,
                            ) && #[trigger] sprite_bit(m, vx, vy, n as int, r, c) == 1
                                && #[trigger] m.gfx[r][c] == 1;
                        lemma_reach_next(vx, vy, byte as int, bit as int, r, c);
                    }
                    assert(partly_collides(m, vx, vy, n as int, byte as int, bit + 1));
                } else {
                    assert forall|r: int, c: int|
                        0 <= r < SCREEN_HEIGHT && 0 <= c < SCREEN_WIDTH && reached(
                            vx,
                            vy,
                            byte as int,
                            bit + 1,
                            r,
                            c,
                        ) implies !(#[trigger] sprite_bit(m, vx, vy, n as int, r, c) == 1
                        && #[trigger] m.gfx[r][c] == 1) by {
                        lemma_reach_next(vx, vy, byte as int, bit as int, r, c);
                    }
                }
            }
            bit = bit + 1;
        }
        collided
    }

    /// DRW Vx, Vy, n: XORs the `n`-row sprite at I onto the screen at (Vx, Vy),
    /// wrapping each pixel around the edges; VF tells whether a pixel went off.
    pub(crate) fn exec_dxyn(&mut self, x: usize, y: usize, n: usize)
        requires
            old(self)@.wf(),
            x < REGISTER_COUNT,
            y < REGISTER_COUNT,
            n < 16,
        ensures
            final(self)@ == op_dxyn(old(self)@, x as int, y as int, n as int),
            final(self)@.wf(),
    {
        let ghost m = old(self)@;
        let vx = self.v_registers[x];
        let vy = self.v_registers[y];
        let mut collided = false;
        assert(forall|b: u8| #[trigger] (b ^ 0u8) == b) by (bit_vector);
        let mut byte: usize = 0;
        while byte < n
            invariant
                m.wf(),
                byte <= n,
                n < 16,
                vx == m.v[x as int],
                vy == m.v[y as int],
                self@ == (Machine { gfx: self@.gfx, ..m }),
                screen_wf(self@.gfx),
                forall|r: int, c: int|
                    0 <= r < SCREEN_HEIGHT && 0 <= c < SCREEN_WIDTH ==> #[trigger] self@.gfx[r][c]
                        == partly_drawn(m, vx, vy, n as int, byte as int, 0, r, c),
                collided == partly_collides(m, vx, vy, n as int, byte as int, 0),
            decreases n - byte,
        {
            collided = self.draw_sprite_row(Ghost(m), vx, vy, n, byte, collided);
            proof {
                assert forall|r: int, c: int|
                    0 <= r < SCREEN_HEIGHT && 0 <= c < SCREEN_WIDTH implies #[trigger] self@.gfx[r][c]
                    == partly_drawn(m, vx, vy, n as int, byte + 1, 0, r, c) by {
                    assert(self@.gfx[r][c] == partly_drawn(m, vx, vy, n as int, byte as int, 8, r, c));
                }
                if collided {
                    let (r, c) = choose|r: int, c: int|
                        0 <= r < SCREEN_HEIGHT && 0 <= c < SCREEN_WIDTH && reached(
                            vx,
                            vy,
                            byte as int,
                            8,
                            r,
                            c,
                        ) && #[trigger] sprite_bit(m, vx, vy, n as int, r, c) == 1
                            && #[trigger] m.gfx[r][c] == 1;
                    assert(reached(vx, vy, byte + 1, 0, r, c));
                    assert(partly_collides(m, vx, vy, n as int, byte + 1, 0));
                } else {
                    assert forall|r: int, c: int|
                        0 <= r < SCREEN_HEIGHT && 0 <= c < SCREEN_WIDTH && reached(
                            vx,
                            vy,
                            byte + 1,
                            0,
                            r,
                            c,
                        ) implies !(#[trigger] sprite_bit(m, vx, vy, n as int, r, c) == 1
                        && #[trigger] m.gfx[r][c] == 1) by {
                        if !reached(vx, vy, byte as int, 8, r, c) {
                            assert(sprite_bit(m, vx, vy, n as int, r, c) == 0);
                        }
                    }
                }
            }
            byte = byte + 1;
        }
        proof {
            assert forall|r: int| 0 <= r < SCREEN_HEIGHT implies #[trigger] self@.gfx[r]
                =~= drawn(m, vx, vy, n as int)[r] by {
                assert forall|c: int| 0 <= c < SCREEN_WIDTH implies self@.gfx[r][c] == drawn(
                    m,
                    vx,
                    vy,
                    n as int,
                )[r][c] by {
                    assert(self@.gfx[r][c] == partly_drawn(m, vx, vy, n as int, n as int, 0, r, c));
                }
            }
            assert(self@.gfx =~= drawn(m, vx, vy, n as int));
            if collided {
                let (r, c) = choose|r: int, c: int|
                    0 <= r < SCREEN_HEIGHT && 0 <= c < SCREEN_WIDTH && reached(
                        vx,
                        vy,
                        n as int,
                        0,
                        r,
                        c,
                    ) && #[trigger] sprite_bit(m, vx, vy, n as int, r, c) == 1
                        && #[trigger] m.gfx[r][c] == 1;
                assert(collides(m, vx, vy, n as int));
            } else {
                assert(!collides(m, vx, vy, n as int));
            }
        }
        self.resources.draw_flag = true;
        self.v_registers[FLAG] = if collided {
            1
        } else {
            0
        };
    }

    /// Whether key `k` is held; there is no key past the sixteenth.
    fn is_pressed(&self, k: u8) -> (r: bool)
        requires
            self@.wf(),
        ensures
            r == self@.key_pressed(k),
    {
        (k as usize) < KEY_COUNT && self.resources.key[k as usize]
    }

    /// SKP Vx: skips the next instruction if the key in Vx is held.
    pub(crate) fn exec_ex9e(&mut self, x: usize)
        requires
            old(self)@.wf(),
            x < REGISTER_COUNT,
        ensures
            final(self)@ == op_ex9e(old(self)@, x as int),
            final(self)@.wf(),
    {
        if self.is_pressed(self.v_registers[x]) {
            self.advance_pc();
        }
    }

    /// SKNP Vx: skips the next instruction if the key in Vx is not held.
    pub(crate) fn exec_exa1(&mut self, x: usize)
        requires
            old(self)@.wf(),
            x < REGISTER_COUNT,
        ensures
            final(self)@ == op_exa1(old(self)@, x as int),
            final(self)@.wf(),
    {
        if !self.is_pressed(self.v_registers[x]) {
            self.advance_pc();
        }
    }

    /// LD Vx, DT.
    pub(crate) fn exec_fx07(&mut self, x: usize)
        requires
            old(self)@.wf(),
            x < REGISTER_COUNT,
        ensures
            final(self)@ == op_fx07(old(self)@, x as int),
            final(self)@.wf(),
    {
        self.v_registers[x] = self.delay_timer;
    }

    /// LD Vx, K: waits for a key; the register is written when the wait ends.
    pub(crate) fn exec_fx0a(&mut self, x: usize)
        requires
            old(self)@.wf(),
            x < REGISTER_COUNT,
        ensures
            final(self)@ == op_fx0a(old(self)@, x as int),
            final(self)@.wf(),
    {
        self.resources.key_wait = KeyWait::WaitingForKey(x);
    }

    /// LD DT, Vx.
    pub(crate) fn exec_fx15(&mut self, x: usize)
        requires
            old(self)@.wf(),
            x < REGISTER_COUNT,
        ensures
            final(self)@ == op_fx15(old(self)@, x as int),
            final(self)@.wf(),
    {
        self.delay_timer = self.v_registers[x];
    }

    /// LD ST, Vx.
    pub(crate) fn exec_fx18(&mut self, x: usize)
        requires
            old(self)@.wf(),
            x < REGISTER_COUNT,
        ensures
            final(self)@ == op_fx18(old(self)@, x as int),
            final(self)@.wf(),
    {
        self.sound_timer = self.v_registers[x];
    }

    /// ADD I, Vx: a 16-bit sum that wraps.
    pub(crate) fn exec_fx1e(&mut self, x: usize)
        requires
            old(self)@.wf(),
            x < REGISTER_COUNT,
        ensures
            final(self)@ == op_fx1e(old(self)@, x as int),
            final(self)@.wf(),
    {
        self.i_reg = ((self.i_reg as u32 + self.v_registers[x] as u32) % 65536) as u16;
    }

    /// LD F, Vx: I points at the glyph of digit Vx.
    pub(crate) fn exec_fx29(&mut self, x: usize)
        requires
            old(self)@.wf(),
            x < REGISTER_COUNT,
        ensures
            final(self)@ == op_fx29(old(self)@, x as int),
            final(self)@.wf(),
    {
        self.i_reg = (self.v_registers[x] as u16) * 5;
    }

    /// LD B, Vx: hundreds, tens and ones of Vx at I, I+1 and I+2.
    pub(crate) fn exec_fx33(&mut self, x: usize)
        requires
            old(self)@.wf(),
            x < REGISTER_COUNT,
        ensures
            final(self)@ == op_fx33(old(self)@, x as int),
            final(self)@.wf(),
    {
        let val = self.v_registers[x];
        let i = self.i_reg as usize;
        self.memory[i % MEMORY_SIZE] = val / 100;
        self.memory[(i + 1) % MEMORY_SIZE] = (val / 10) % 10;
        self.memory[(i + 2) % MEMORY_SIZE] = val % 10;
    }

    /// LD [I], Vx: stores V0 through Vx from address I on.
    pub(crate) fn exec_fx55(&mut self, x: usize)
        requires
            old(self)@.wf(),
            x < REGISTER_COUNT,
        ensures
            final(self)@ == op_fx55(old(self)@, x as int),
            final(self)@.wf(),
    {
        let ghost m = old(self)@;
        let i = self.i_reg as usize;
        let mut k: usize = 0;
        while k <= x
            invariant
                k <= x + 1,
                x < REGISTER_COUNT,
                i == m.i,
                self@.wf(),
                self@ == (Machine { memory: self@.memory, ..m }),
                forall|a: int|
                    0 <= a < MEMORY_SIZE ==> #[trigger] self@.memory[a] == if (a - m.i) % (
                    MEMORY_SIZE as int) < k {
                        m.v[(a - m.i) % (MEMORY_SIZE as int)]
                    } else {
                        m.memory[a]
                    },
            decreases x + 1 - k,
        {
            let a = (i + k) % MEMORY_SIZE;
            assert((a - m.i) % (MEMORY_SIZE as int) == k);
            self.memory[a] = self.v_registers[k];
            k = k + 1;
        }
        assert(self@.memory =~= op_fx55(m, x as int).memory);
    }

    /// LD Vx, [I]: loads V0 through Vx from address I on.
    pub(crate) fn exec_fx65(&mut self, x: usize)
        requires
            old(self)@.wf(),
            x < REGISTER_COUNT,
        ensures
            final(self)@ == op_fx65(old(self)@, x as int),
            final(self)@.wf(),
    {
        let ghost m = old(self)@;
        let i = self.i_reg as usize;
        let mut k: usize = 0;
        while k <= x
            invariant
                k <= x + 1,
                x < REGISTER_COUNT,
                i == m.i,
                self@.wf(),
                self@ == (Machine { v: self@.v, ..m }),
                forall|j: int|
                    0 <= j < REGISTER_COUNT ==> #[trigger] self@.v[j] == if j < k {
                        m.memory[addr(m.i as int, j)]
                    } else {
                        m.v[j]
                    },
            decreases x + 1 - k,
        {
            self.v_registers[k] = self.memory[(i + k) % MEMORY_SIZE];
            k = k + 1;
        }
        assert(self@.v =~= op_fx65(m, x as int).v);
    }
}

} // verus!
