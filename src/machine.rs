//! The mathematical model of the machine and the meaning of every instruction.
use vstd::prelude::*;

verus! {

pub const MEMORY_SIZE: usize = 4096;

pub const PROGRAM_START: usize = 0x200;

pub const SCREEN_WIDTH: usize = 64;

pub const SCREEN_HEIGHT: usize = 32;

pub const REGISTER_COUNT: usize = 16;

pub const STACK_SIZE: usize = 16;

pub const KEY_COUNT: usize = 16;

/// The register that receives carry, borrow, shifted-out and collision flags.
pub const FLAG: usize = 0xF;

/// Whether the engine runs instructions or waits for a key to be pressed.
#[derive(Clone, Copy, Debug, PartialEq, Eq, Structural)]
pub enum KeyWait {
    Running,
    /// Waiting; the index of the first pressed key goes into this register.
    WaitingForKey(usize),
}

/// A cycle that could not run; the machine is left exactly as it was.
#[derive(Clone, Copy, Debug, PartialEq, Eq, Structural)]
pub enum Fault {
    /// `2nnn` with all sixteen stack slots in use.
    StackOverflow,
    /// `00EE` with an empty stack.
    StackUnderflow,
}

/// The fields of an instruction word.
#[derive(Clone, Copy, Debug, PartialEq, Eq, Structural)]
pub struct Nibbles {
    /// Bits 12..16.
    pub first_bite: u8,
    /// Bits 0..12, an address.
    pub nnn: usize,
    /// Bits 0..4.
    pub nibble: u8,
    /// Bits 8..12, a register index.
    pub x: usize,
    /// Bits 4..8, a register index.
    pub y: usize,
    /// Bits 0..8, a byte.
    pub kk: u8,
}

/// The whole state of the machine as mathematical values.
pub struct Machine {
    pub memory: Seq<u8>,
    pub v: Seq<u8>,
    pub i: u16,
    pub pc: nat,
    pub stack: Seq<u16>,
    pub sp: nat,
    pub delay: u8,
    pub sound: u8,
    /// Rows of pixels, each 0 (off) or 1 (on).
    pub gfx: Seq<Seq<u8>>,
    pub keys: Seq<bool>,
    pub wait: KeyWait,
    pub draw: bool,
}

pub open spec fn blank_screen() -> Seq<Seq<u8>> {
    Seq::new(SCREEN_HEIGHT as nat, |r: int| Seq::new(SCREEN_WIDTH as nat, |c: int| 0u8))
}

pub open spec fn screen_wf(gfx: Seq<Seq<u8>>) -> bool {
    &&& gfx.len() == SCREEN_HEIGHT
    &&& forall|r: int|
        0 <= r < SCREEN_HEIGHT ==> (#[trigger] gfx[r]).len() == SCREEN_WIDTH && forall|c: int|
            0 <= c < SCREEN_WIDTH ==> #[trigger] gfx[r][c] <= 1
}

/// The address `offset` bytes after `base`, wrapped into the address space.
pub open spec fn addr(base: int, offset: int) -> int {
    (base + offset) % (MEMORY_SIZE as int)
}

/// The glyphs of the hexadecimal digits, five rows each, at addresses 0..80.
pub open spec fn font() -> Seq<u8> {
    seq![
        0xF0u8, 0x90, 0x90, 0x90, 0xF0, 0x20, 0x60, 0x20, 0x20, 0x70,
        0xF0, 0x10, 0xF0, 0x80, 0xF0, 0xF0, 0x10, 0xF0, 0x10, 0xF0,
        0x90, 0x90, 0xF0, 0x10, 0x10, 0xF0, 0x80, 0xF0, 0x10, 0xF0,
        0xF0, 0x80, 0xF0, 0x90, 0xF0, 0xF0, 0x10, 0x20, 0x40, 0x40,
        0xF0, 0x90, 0xF0, 0x90, 0xF0, 0xF0, 0x90, 0xF0, 0x10, 0xF0,
        0xF0, 0x90, 0xF0, 0x90, 0x90, 0xE0, 0x90, 0xE0, 0x90, 0xE0,
        0xF0, 0x80, 0x80, 0x80, 0xF0, 0xE0, 0x90, 0x90, 0x90, 0xE0,
        0xF0, 0x80, 0xF0, 0x80, 0xF0, 0xF0, 0x80, 0xF0, 0x80, 0x80,
    ]
}

/// The machine as constructed: zeroed, glyphs preloaded, counter at the program start.
pub open spec fn initial() -> Machine {
    Machine {
        memory: Seq::new(
            MEMORY_SIZE as nat,
            |a: int|
                if a < font().len() {
                    font()[a]
                } else {
                    0u8
                },
        ),
        v: Seq::new(REGISTER_COUNT as nat, |k: int| 0u8),
        i: 0,
        pc: PROGRAM_START as nat,
        stack: Seq::new(STACK_SIZE as nat, |k: int| 0u16),
        sp: 0,
        delay: 0,
        sound: 0,
        gfx: blank_screen(),
        keys: Seq::new(KEY_COUNT as nat, |k: int| false),
        wait: KeyWait::Running,
        draw: false,
    }
}

/// Memory after copying `bytes` from the program start, dropping what falls past the end.
pub open spec fn loaded(memory: Seq<u8>, bytes: Seq<u8>) -> Seq<u8> {
    Seq::new(
        memory.len(),
        |a: int|
            if PROGRAM_START <= a < PROGRAM_START + bytes.len() {
                bytes[a - PROGRAM_START]
            } else {
                memory[a]
            },
    )
}

impl Machine {
    pub open spec fn wf(self) -> bool {
        &&& self.memory.len() == MEMORY_SIZE
        &&& self.v.len() == REGISTER_COUNT
        &&& self.stack.len() == STACK_SIZE
        &&& forall|k: int| 0 <= k < STACK_SIZE ==> (#[trigger] self.stack[k]) < MEMORY_SIZE
        &&& self.sp <= STACK_SIZE
        &&& self.pc < MEMORY_SIZE
        &&& screen_wf(self.gfx)
        &&& self.keys.len() == KEY_COUNT
        &&& (self.wait matches KeyWait::WaitingForKey(reg) ==> reg < REGISTER_COUNT)
    }

    pub open spec fn advance(self) -> Machine {
        Machine { pc: (addr(self.pc as int, 2)) as nat, ..self }
    }

    pub open spec fn skip_if(self, cond: bool) -> Machine {
        if cond {
            self.advance()
        } else {
            self
        }
    }

    pub open spec fn set_v(self, x: int, value: u8) -> Machine {
        Machine { v: self.v.update(x, value), ..self }
    }

    /// Writes a result into `x`, then the flag into the flag register, so the flag
    /// survives when `x` is the flag register itself.
    pub open spec fn set_v_flag(self, x: int, value: u8, flag: bool) -> Machine {
        self.set_v(x, value).set_v(
            FLAG as int,
            if flag {
                1
            } else {
                0
            },
        )
    }

    pub open spec fn key_pressed(self, k: u8) -> bool {
        k < KEY_COUNT && self.keys[k as int]
    }

    /// The instruction word at the program counter, high byte first.
    pub open spec fn fetch(self) -> u16 {
        (self.memory[self.pc as int] as int * 256 + self.memory[addr(
            self.pc as int,
            1,
        )] as int) as u16
    }

    pub open spec fn tick_timers(self) -> Machine {
        Machine {
            delay: if self.delay > 0 {
                (self.delay - 1) as u8
            } else {
                0
            },
            sound: if self.sound > 0 {
                (self.sound - 1) as u8
            } else {
                0
            },
            ..self
        }
    }
}

pub open spec fn decode(op: u16) -> Nibbles {
    Nibbles {
        first_bite: (op / 4096) as u8,
        nnn: (op % 4096) as usize,
        nibble: (op % 16) as u8,
        x: ((op / 256) % 16) as usize,
        y: ((op / 16) % 16) as usize,
        kk: (op % 256) as u8,
    }
}

impl Nibbles {
    pub open spec fn wf(self) -> bool {
        &&& self.first_bite < 16
        &&& self.nnn < MEMORY_SIZE
        &&& self.nibble < 16
        &&& self.x < REGISTER_COUNT
        &&& self.y < REGISTER_COUNT
    }
}

pub open spec fn is_return(n: Nibbles) -> bool {
    n.first_bite == 0 && n.x == 0 && n.y == 0xE && n.nibble == 0xE
}

pub open spec fn is_call(n: Nibbles) -> bool {
    n.first_bite == 2
}

/// The fault, if any, that keeps an instruction from running on `m`.
pub open spec fn fault_of(m: Machine, n: Nibbles) -> Option<Fault> {
    if is_return(n) && m.sp == 0 {
        Some(Fault::StackUnderflow)
    } else if is_call(n) && m.sp >= STACK_SIZE {
        Some(Fault::StackOverflow)
    } else {
        None
    }
}

// One spec function per instruction. None of them moves the program counter
// past the instruction itself: `execute` does that for all but the jumps.
pub open spec fn op_00e0(m: Machine) -> Machine {
    Machine { gfx: blank_screen(), draw: true, ..m }
}

pub open spec fn op_00ee(m: Machine) -> Machine {
    Machine { sp: (m.sp - 1) as nat, pc: m.stack[m.sp - 1] as nat, ..m }
}

pub open spec fn op_1nnn(m: Machine, nnn: int) -> Machine {
    Machine { pc: nnn as nat, ..m }
}

pub open spec fn op_2nnn(m: Machine, nnn: int) -> Machine {
    Machine {
        stack: m.stack.update(m.sp as int, addr(m.pc as int, 2) as u16),
        sp: m.sp + 1,
        pc: nnn as nat,
        ..m
    }
}

pub open spec fn op_3xkk(m: Machine, x: int, kk: u8) -> Machine {
    m.skip_if(m.v[x] == kk)
}

pub open spec fn op_4xkk(m: Machine, x: int, kk: u8) -> Machine {
    m.skip_if(m.v[x] != kk)
}

pub open spec fn op_5xy0(m: Machine, x: int, y: int) -> Machine {
    m.skip_if(m.v[x] == m.v[y])
}

pub open spec fn op_6xkk(m: Machine, x: int, kk: u8) -> Machine {
    m.set_v(x, kk)
}

pub open spec fn op_7xkk(m: Machine, x: int, kk: u8) -> Machine {
    m.set_v(x, ((m.v[x] + kk) % 256) as u8)
}

pub open spec fn op_8xy0(m: Machine, x: int, y: int) -> Machine {
    m.set_v(x, m.v[y])
}

pub open spec fn op_8xy1(m: Machine, x: int, y: int) -> Machine {
    m.set_v(x, m.v[x] | m.v[y])
}

pub open spec fn op_8xy2(m: Machine, x: int, y: int) -> Machine {
    m.set_v(x, m.v[x] & m.v[y])
}

pub open spec fn op_8xy3(m: Machine, x: int, y: int) -> Machine {
    m.set_v(x, m.v[x] ^ m.v[y])
}

pub open spec fn op_8xy4(m: Machine, x: int, y: int) -> Machine {
    m.set_v_flag(x, ((m.v[x] + m.v[y]) % 256) as u8, m.v[x] + m.v[y] > 255)
}

pub open spec fn op_8xy5(m: Machine, x: int, y: int) -> Machine {
    m.set_v_flag(x, ((m.v[x] - m.v[y]) % 256) as u8, m.v[x] > m.v[y])
}

pub open spec fn op_8xy6(m: Machine, x: int) -> Machine {
    m.set_v_flag(x, m.v[x] / 2, m.v[x] % 2 == 1)
}

pub open spec fn op_8xy7(m: Machine, x: int, y: int) -> Machine {
    m.set_v_flag(x, ((m.v[y] - m.v[x]) % 256) as u8, m.v[y] > m.v[x])
}

pub open spec fn op_8xye(m: Machine, x: int) -> Machine {
    m.set_v_flag(x, ((m.v[x] * 2) % 256) as u8, m.v[x] >= 128)
}

pub open spec fn op_9xy0(m: Machine, x: int, y: int) -> Machine {
    m.skip_if(m.v[x] != m.v[y])
}

pub open spec fn op_annn(m: Machine, nnn: int) -> Machine {
    Machine { i: nnn as u16, ..m }
}

pub open spec fn op_bnnn(m: Machine, nnn: int) -> Machine {
    Machine { pc: addr(nnn, m.v[0] as int) as nat, ..m }
}

pub open spec fn op_cxkk(m: Machine, x: int, kk: u8, random: u8) -> Machine {
    m.set_v(x, random & kk)
}

/// The sprite bit that `Dxyn` lays over pixel (`r`, `c`), or 0 where the sprite
/// does not reach. Coordinates wrap around both edges.
pub open spec fn sprite_bit(m: Machine, vx: u8, vy: u8, n: int, r: int, c: int) -> u8 {
    let row = (r - vy) % (SCREEN_HEIGHT as int);
    let col = (c - vx) % (SCREEN_WIDTH as int);
    if row < n && col < 8 {
        (m.memory[addr(m.i as int, row)] >> ((7 - col) as u8)) & 1u8
    } else {
        0u8
    }
}

pub open spec fn drawn(m: Machine, vx: u8, vy: u8, n: int) -> Seq<Seq<u8>> {
    Seq::new(
        SCREEN_HEIGHT as nat,
        |r: int|
            Seq::new(SCREEN_WIDTH as nat, |c: int| m.gfx[r][c] ^ sprite_bit(m, vx, vy, n, r, c)),
    )
}

/// Whether the sprite turns off a pixel that is on.
pub open spec fn collides(m: Machine, vx: u8, vy: u8, n: int) -> bool {
    exists|r: int, c: int|
        0 <= r < SCREEN_HEIGHT && 0 <= c < SCREEN_WIDTH && #[trigger] sprite_bit(m, vx, vy, n, r, c)
            == 1 && #[trigger] m.gfx[r][c] == 1
}

pub open spec fn op_dxyn(m: Machine, x: int, y: int, n: int) -> Machine {
    let vx = m.v[x];
    let vy = m.v[y];
    Machine { gfx: drawn(m, vx, vy, n), draw: true, ..m }.set_v(
        FLAG as int,
        if collides(m, vx, vy, n) {
            1
        } else {
            0
        },
    )
}

pub open spec fn op_ex9e(m: Machine, x: int) -> Machine {
    m.skip_if(m.key_pressed(m.v[x]))
}

pub open spec fn op_exa1(m: Machine, x: int) -> Machine {
    m.skip_if(!m.key_pressed(m.v[x]))
}

pub open spec fn op_fx07(m: Machine, x: int) -> Machine {
    m.set_v(x, m.delay)
}

pub open spec fn op_fx0a(m: Machine, x: int) -> Machine {
    Machine { wait: KeyWait::WaitingForKey(x as usize), ..m }
}

pub open spec fn op_fx15(m: Machine, x: int) -> Machine {
    Machine { delay: m.v[x], ..m }
}

pub open spec fn op_fx18(m: Machine, x: int) -> Machine {
    Machine { sound: m.v[x], ..m }
}

pub open spec fn op_fx1e(m: Machine, x: int) -> Machine {
    Machine { i: ((m.i + m.v[x]) % 65536) as u16, ..m }
}

pub open spec fn op_fx29(m: Machine, x: int) -> Machine {
    Machine { i: (m.v[x] * 5) as u16, ..m }
}

pub open spec fn op_fx33(m: Machine, x: int) -> Machine {
    let val = m.v[x];
    let i = m.i as int;
    Machine {
        memory: m.memory.update(addr(i, 0), val / 100).update(addr(i, 1), (val / 10) % 10).update(
            addr(i, 2),
            val % 10,
        ),
        ..m
    }
}

pub open spec fn op_fx55(m: Machine, x: int) -> Machine {
    Machine {
        memory: Seq::new(
            MEMORY_SIZE as nat,
            |a: int|
                if (a - m.i) % (MEMORY_SIZE as int) <= x {
                    m.v[(a - m.i) % (MEMORY_SIZE as int)]
                } else {
                    m.memory[a]
                },
        ),
        ..m
    }
}

pub open spec fn op_fx65(m: Machine, x: int) -> Machine {
    Machine {
        v: Seq::new(
            REGISTER_COUNT as nat,
            |k: int|
                if k <= x {
                    m.memory[addr(m.i as int, k)]
                } else {
                    m.v[k]
                },
        ),
        ..m
    }
}

/// The machine after running the instruction `n` with the counter at its address,
/// including the move to the next instruction. `random` is the byte that `Cxkk`
/// draws. Words that name no instruction only move the counter.
pub open spec fn execute(m: Machine, n: Nibbles, random: u8) -> Machine {
    let x = n.x as int;
    let y = n.y as int;
    let nnn = n.nnn as int;
    let kk = n.kk;
    match (n.first_bite, n.x, n.y, n.nibble) {
        (0x0, 0x0, 0xE, 0x0) => op_00e0(m).advance(),
        (0x0, 0x0, 0xE, 0xE) => op_00ee(m),
        (0x1, _, _, _) => op_1nnn(m, nnn),
        (0x2, _, _, _) => op_2nnn(m, nnn),
        (0x3, _, _, _) => op_3xkk(m, x, kk).advance(),
        (0x4, _, _, _) => op_4xkk(m, x, kk).advance(),
        (0x5, _, _, 0x0) => op_5xy0(m, x, y).advance(),
        (0x6, _, _, _) => op_6xkk(m, x, kk).advance(),
        (0x7, _, _, _) => op_7xkk(m, x, kk).advance(),
        (0x8, _, _, 0x0) => op_8xy0(m, x, y).advance(),
        (0x8, _, _, 0x1) => op_8xy1(m, x, y).advance(),
        (0x8, _, _, 0x2) => op_8xy2(m, x, y).advance(),
        (0x8, _, _, 0x3) => op_8xy3(m, x, y).advance(),
        (0x8, _, _, 0x4) => op_8xy4(m, x, y).advance(),
        (0x8, _, _, 0x5) => op_8xy5(m, x, y).advance(),
        (0x8, _, _, 0x6) => op_8xy6(m, x).advance(),
        (0x8, _, _, 0x7) => op_8xy7(m, x, y).advance(),
        (0x8, _, _, 0xE) => op_8xye(m, x).advance(),
        (0x9, _, _, 0x0) => op_9xy0(m, x, y).advance(),
        (0xA, _, _, _) => op_annn(m, nnn).advance(),
        (0xB, _, _, _) => op_bnnn(m, nnn),
        (0xC, _, _, _) => op_cxkk(m, x, kk, random).advance(),
        (0xD, _, _, _) => op_dxyn(m, x, y, n.nibble as int).advance(),
        (0xE, _, 0x9, 0xE) => op_ex9e(m, x).advance(),
        (0xE, _, 0xA, 0x1) => op_exa1(m, x).advance(),
        (0xF, _, 0x0, 0x7) => op_fx07(m, x).advance(),
        (0xF, _, 0x0, 0xA) => op_fx0a(m, x).advance(),
        (0xF, _, 0x1, 0x5) => op_fx15(m, x).advance(),
        (0xF, _, 0x1, 0x8) => op_fx18(m, x).advance(),
        (0xF, _, 0x1, 0xE) => op_fx1e(m, x).advance(),
        (0xF, _, 0x2, 0x9) => op_fx29(m, x).advance(),
        (0xF, _, 0x3, 0x3) => op_fx33(m, x).advance(),
        (0xF, _, 0x5, 0x5) => op_fx55(m, x).advance(),
        (0xF, _, 0x6, 0x5) => op_fx65(m, x).advance(),
        _ => m.advance(),
    }
}

/// The lowest pressed key at or after `from`, or `KEY_COUNT` if there is none.
pub open spec fn first_pressed(keys: Seq<bool>, from: int) -> int
    decreases KEY_COUNT - from,
{
    if from >= KEY_COUNT {
        KEY_COUNT as int
    } else if keys[from] {
        from
    } else {
        first_pressed(keys, from + 1)
    }
}

/// A waiting cycle: the lowest pressed key, if any, goes into `reg` and ends the wait.
pub open spec fn resolve_wait(m: Machine, reg: int) -> Machine {
    let k = first_pressed(m.keys, 0);
    if k < KEY_COUNT {
        Machine { wait: KeyWait::Running, ..m.set_v(reg, k as u8) }
    } else {
        m
    }
}

/// One cycle on the key sample `keys`: the next machine and whether the frame
/// buffer changed, or the fault that stopped the cycle.
pub open spec fn step(m: Machine, keys: Seq<bool>, random: u8) -> Result<(Machine, bool), Fault> {
    let m1 = Machine { keys: keys, draw: false, ..m };
    match m1.wait {
        KeyWait::WaitingForKey(reg) => Ok((resolve_wait(m1, reg as int), false)),
        KeyWait::Running => {
            let m2 = m1.tick_timers();
            let n = decode(m2.fetch());
            match fault_of(m2, n) {
                Some(f) => Err(f),
                None => {
                    let m3 = execute(m2, n, random);
                    Ok((m3, m3.draw))
                },
            }
        },
    }
}

/// Whether a cycle from `m` on `keys` with the byte `random` may report `r` and
/// leave `next`: the result of `step`, or on a fault the machine unchanged.
pub open spec fn cycle_outcome(
    m: Machine,
    keys: Seq<bool>,
    random: u8,
    r: Result<bool, Fault>,
    next: Machine,
) -> bool {
    match step(m, keys, random) {
        Ok((after, redraw)) => r == Ok::<bool, Fault>(redraw) && next == after,
        Err(f) => r == Err::<bool, Fault>(f) && next == m,
    }
}

} // verus!
