//! The machine state and its lifecycle: construction, program loading, inspection.
use vstd::prelude::*;

use crate::machine::{
    font, initial, loaded, KeyWait, Machine, KEY_COUNT, MEMORY_SIZE, PROGRAM_START,
    REGISTER_COUNT, SCREEN_HEIGHT, SCREEN_WIDTH, STACK_SIZE,
};

pub mod cycle;
pub mod opcodes;

verus! {

/// A CHIP-8 machine: memory, registers, stack, timers, frame buffer and keypad.
pub struct Chip8 {
    stack: [u16; 16],
    sp: usize,
    memory: [u8; 4096],
    v_registers: [u8; 16],
    pc: usize,
    i_reg: u16,
    delay_timer: u8,
    sound_timer: u8,
    resources: ExternalResources,
}

/// The parts of the state that face the outside: screen, keypad and key wait.
pub struct ExternalResources {
    /// Rows of pixels, 0 for off and 1 for on.
    pub gfx: [[u8; 64]; 32],
    /// The keys held in the current cycle.
    pub key: [bool; 16],
    pub key_wait: KeyWait,
    /// Set by the cycle that changed the frame buffer.
    pub draw_flag: bool,
}

pub open spec fn screen_view(gfx: [[u8; 64]; 32]) -> Seq<Seq<u8>> {
    Seq::new(SCREEN_HEIGHT as nat, |r: int| gfx[r]@)
}

impl View for Chip8 {
    type V = Machine;

    closed spec fn view(&self) -> Machine {
        Machine {
            memory: self.memory@,
            v: self.v_registers@,
            i: self.i_reg,
            pc: self.pc as nat,
            stack: self.stack@,
            sp: self.sp as nat,
            delay: self.delay_timer,
            sound: self.sound_timer,
            gfx: screen_view(self.resources.gfx),
            keys: self.resources.key@,
            wait: self.resources.key_wait,
            draw: self.resources.draw_flag,
        }
    }
}

fn fontset() -> (r: [u8; 80])
    ensures
        r@ == font(),
{
    let r: [u8; 80] = [
        0xF0, 0x90, 0x90, 0x90, 0xF0, 0x20, 0x60, 0x20, 0x20, 0x70,
        0xF0, 0x10, 0xF0, 0x80, 0xF0, 0xF0, 0x10, 0xF0, 0x10, 0xF0,
        0x90, 0x90, 0xF0, 0x10, 0x10, 0xF0, 0x80, 0xF0, 0x10, 0xF0,
        0xF0, 0x80, 0xF0, 0x90, 0xF0, 0xF0, 0x10, 0x20, 0x40, 0x40,
        0xF0, 0x90, 0xF0, 0x90, 0xF0, 0xF0, 0x90, 0xF0, 0x10, 0xF0,
        0xF0, 0x90, 0xF0, 0x90, 0x90, 0xE0, 0x90, 0xE0, 0x90, 0xE0,
        0xF0, 0x80, 0x80, 0x80, 0xF0, 0xE0, 0x90, 0x90, 0x90, 0xE0,
        0xF0, 0x80, 0xF0, 0x80, 0xF0, 0xF0, 0x80, 0xF0, 0x80, 0x80,
    ];
    assert(r@ =~= font());
    r
}

impl Chip8 {
    /// A machine with everything zeroed, the glyphs at addresses 0..80 and the
    /// program counter at the program start.
    pub fn new() -> (r: Chip8)
        ensures
            r@ == initial(),
            r@.wf(),
    {
        let glyphs = fontset();
        let mut mem = [0u8; 4096];
        let mut k: usize = 0;
        while k < 80
            invariant
                glyphs@ == font(),
                k <= 80,
                forall|a: int| 0 <= a < k ==> mem@[a] == font()[a],
                forall|a: int| k <= a < MEMORY_SIZE ==> mem@[a] == 0,
            decreases 80 - k,
        {
            mem[k] = glyphs[k];
            k = k + 1;
        }
        let r = Chip8 {
            pc: PROGRAM_START,
            i_reg: 0,
            sp: 0,
            memory: mem,
            v_registers: [0; 16],
            stack: [0; 16],
            delay_timer: 0,
            sound_timer: 0,
            resources: ExternalResources {
                gfx: [[0; 64]; 32],
                key: [false; 16],
                key_wait: KeyWait::Running,
                draw_flag: false,
            },
        };
        assert(r@.memory =~= initial().memory);
        assert(r@.v =~= initial().v);
        assert(r@.stack =~= initial().stack);
        assert(r@.keys =~= initial().keys);
        assert forall|row: int| 0 <= row < SCREEN_HEIGHT implies r@.gfx[row]
            =~= initial().gfx[row] by {}
        assert(r@.gfx =~= initial().gfx);
        r
    }

    /// Copies a program image into memory from the program start, dropping the
    /// bytes that would fall past the end of memory.
    pub fn load_into_memory(&mut self, bytes: &[u8])
        requires
            old(self)@.wf(),
        ensures
            final(self)@ == (Machine { memory: loaded(old(self)@.memory, bytes@), ..old(self)@ }),
            final(self)@.wf(),
    {
        let mut k: usize = 0;
        while k < bytes.len() && PROGRAM_START + k < MEMORY_SIZE
            invariant
                self@.wf(),
                k <= bytes.len(),
                PROGRAM_START + k <= MEMORY_SIZE,
                self@ == (Machine { memory: self@.memory, ..old(self)@ }),
                forall|a: int|
                    0 <= a < MEMORY_SIZE ==> #[trigger] self@.memory[a] == if PROGRAM_START <= a
                        < PROGRAM_START + k {
                        bytes@[a - PROGRAM_START]
                    } else {
                        old(self)@.memory[a]
                    },
            decreases bytes.len() - k,
        {
            self.memory[PROGRAM_START + k] = bytes[k];
            k = k + 1;
        }
        assert(self@.memory =~= loaded(old(self)@.memory, bytes@));
    }

    pub fn pc(&self) -> (r: usize)
        ensures
            r == self@.pc,
    {
        self.pc
    }

    pub fn sp(&self) -> (r: usize)
        ensures
            r == self@.sp,
    {
        self.sp
    }

    pub fn i_reg(&self) -> (r: u16)
        ensures
            r == self@.i,
    {
        self.i_reg
    }

    pub fn v_register(&self, k: usize) -> (r: u8)
        requires
            k < REGISTER_COUNT,
        ensures
            r == self@.v[k as int],
    {
        self.v_registers[k]
    }

    pub fn memory_byte(&self, a: usize) -> (r: u8)
        requires
            a < MEMORY_SIZE,
        ensures
            r == self@.memory[a as int],
    {
        self.memory[a]
    }

    pub fn stack_slot(&self, k: usize) -> (r: u16)
        requires
            k < STACK_SIZE,
        ensures
            r == self@.stack[k as int],
    {
        self.stack[k]
    }

    pub fn delay_timer(&self) -> (r: u8)
        ensures
            r == self@.delay,
    {
        self.delay_timer
    }

    pub fn sound_timer(&self) -> (r: u8)
        ensures
            r == self@.sound,
    {
        self.sound_timer
    }

    pub fn key_wait(&self) -> (r: KeyWait)
        ensures
            r == self@.wait,
    {
        self.resources.key_wait
    }

    pub fn key_held(&self, k: usize) -> (r: bool)
        requires
            k < KEY_COUNT,
        ensures
            r == self@.keys[k as int],
    {
        self.resources.key[k]
    }

    /// Whether the last cycle changed the frame buffer.
    pub fn draw_flag(&self) -> (r: bool)
        ensures
            r == self@.draw,
    {
        self.resources.draw_flag
    }

    /// The frame buffer, row by row.
    pub fn frame_buffer(&self) -> (r: &[[u8; 64]; 32])
        ensures
            screen_view(*r) == self@.gfx,
    {
        &self.resources.gfx
    }

    pub fn pixel(&self, row: usize, col: usize) -> (r: u8)
        requires
            row < SCREEN_HEIGHT,
            col < SCREEN_WIDTH,
        ensures
            r == self@.gfx[row as int][col as int],
    {
        self.resources.gfx[row][col]
    }
}

} // verus!
