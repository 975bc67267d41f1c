//! The cycle engine: fetch, decode, dispatch, and the key wait.
use vstd::prelude::*;

use crate::chip8::Chip8;
use crate::machine::{
    cycle_outcome, decode, execute, fault_of, first_pressed, resolve_wait, Fault, KeyWait,
    Nibbles, KEY_COUNT, MEMORY_SIZE, REGISTER_COUNT, STACK_SIZE,
};

verus! {

/// Relies on rand::random::<u8>: a byte drawn from the thread-local generator.
/// Nothing is assumed of its value.
#[verifier::external_body]
fn random_byte() -> (r: u8) {
    rand::random::<u8>()
}

impl Chip8 {
    /// The instruction word at the program counter, high byte first.
    pub fn fetch_opcode(&self) -> (r: u16)
        requires
            self@.wf(),
        ensures
            r == self@.fetch(),
    {
        let hi = self.memory[self.pc] as u16;
        let lo = self.memory[(self.pc + 1) % MEMORY_SIZE] as u16;
        hi * 256 + lo
    }

    /// Splits an instruction word into its fields.
    pub fn decode_opcode(opcode: u16) -> (r: Nibbles)
        ensures
            r == decode(opcode),
            r.wf(),
    {
        let r = Nibbles {
            first_bite: (opcode >> 12) as u8,
            nnn: (opcode & 0x0FFF) as usize,
            nibble: (opcode & 0x000F) as u8,
            x: ((opcode & 0x0F00) >> 8) as usize,
            y: ((opcode & 0x00F0) >> 4) as usize,
            kk: (opcode & 0x00FF) as u8,
        };
        proof {
            assert(opcode >> 12u16 == opcode / 4096) by (bit_vector);
            assert(opcode & 0x0FFFu16 == opcode % 4096) by (bit_vector);
            assert(opcode & 0x000Fu16 == opcode % 16) by (bit_vector);
            assert((opcode & 0x0F00u16) >> 8u16 == (opcode / 256) % 16) by (bit_vector);
            assert((opcode & 0x00F0u16) >> 4u16 == (opcode / 16) % 16) by (bit_vector);
            assert(opcode & 0x00FFu16 == opcode % 256) by (bit_vector);
        }
        r
    }

    /// Runs one decoded instruction with the counter on it and moves past it,
    /// unless it jumps. `random` is the byte that `Cxkk` uses.
    pub fn execute_opcode(&mut self, nib: &Nibbles, random: u8)
        requires
            old(self)@.wf(),
            nib.wf(),
            fault_of(old(self)@, *nib) is None,
        ensures
            final(self)@ == execute(old(self)@, *nib, random),
            final(self)@.wf(),
    {
        let x = nib.x;
        let y = nib.y;
        let nnn = nib.nnn;
        let kk = nib.kk;
        match (nib.first_bite, nib.x, nib.y, nib.nibble) {
            (0x0, 0x0, 0xE, 0x0) => {
                self.exec_00e0();
                self.advance_pc();
            },
            (0x0, 0x0, 0xE, 0xE) => self.exec_00ee(),
            (0x1, _, _, _) => self.exec_1nnn(nnn),
            (0x2, _, _, _) => self.exec_2nnn(nnn),
            (0x3, _, _, _) => {
                self.exec_3xkk(x, kk);
                self.advance_pc();
            },
            (0x4, _, _, _) => {
                self.exec_4xkk(x, kk);
                self.advance_pc();
            },
            (0x5, _, _, 0x0) => {
                self.exec_5xy0(x, y);
                self.advance_pc();
            },
            (0x6, _, _, _) => {
                self.exec_6xkk(x, kk);
                self.advance_pc();
            },
            (0x7, _, _, _) => {
                self.exec_7xkk(x, kk);
                self.advance_pc();
            },
            (0x8, _, _, 0x0) => {
                self.exec_8xy0(x, y);
                self.advance_pc();
            },
            (0x8, _, _, 0x1) => {
                self.exec_8xy1(x, y);
                self.advance_pc();
            },
            (0x8, _, _, 0x2) => {
                self.exec_8xy2(x, y);
                self.advance_pc();
            },
            (0x8, _, _, 0x3) => {
                self.exec_8xy3(x, y);
                self.advance_pc();
            },
            (0x8, _, _, 0x4) => {
                self.exec_8xy4(x, y);
                self.advance_pc();
            },
            (0x8, _, _, 0x5) => {
                self.exec_8xy5(x, y);
                self.advance_pc();
            },
            (0x8, _, _, 0x6) => {
                self.exec_8xy6(x);
                self.advance_pc();
            },
            (0x8, _, _, 0x7) => {
                self.exec_8xy7(x, y);
                self.advance_pc();
            },
            (0x8, _, _, 0xE) => {
                self.exec_8xye(x);
                self.advance_pc();
            },
            (0x9, _, _, 0x0) => {
                self.exec_9xy0(x, y);
                self.advance_pc();
            },
            (0xA, _, _, _) => {
                self.exec_annn(nnn as u16);
                self.advance_pc();
            },
            (0xB, _, _, _) => self.exec_bnnn(nnn),
            (0xC, _, _, _) => {
                self.exec_cxkk(x, kk, random);
                self.advance_pc();
            },
            (0xD, _, _, _) => {
                self.exec_dxyn(x, y, nib.nibble as usize);
                self.advance_pc();
            },
            (0xE, _, 0x9, 0xE) => {
                self.exec_ex9e(x);
                self.advance_pc();
            },
            (0xE, _, 0xA, 0x1) => {
                self.exec_exa1(x);
                self.advance_pc();
            },
            (0xF, _, 0x0, 0x7) => {
                self.exec_fx07(x);
                self.advance_pc();
            },
            (0xF, _, 0x0, 0xA) => {
                self.exec_fx0a(x);
                self.advance_pc();
            },
            (0xF, _, 0x1, 0x5) => {
                self.exec_fx15(x);
                self.advance_pc();
            },
            (0xF, _, 0x1, 0x8) => {
                self.exec_fx18(x);
                self.advance_pc();
            },
            (0xF, _, 0x1, 0xE) => {
                self.exec_fx1e(x);
                self.advance_pc();
            },
            (0xF, _, 0x2, 0x9) => {
                self.exec_fx29(x);
                self.advance_pc();
            },
            (0xF, _, 0x3, 0x3) => {
                self.exec_fx33(x);
                self.advance_pc();
            },
            (0xF, _, 0x5, 0x5) => {
                self.exec_fx55(x);
                self.advance_pc();
            },
            (0xF, _, 0x6, 0x5) => {
                self.exec_fx65(x);
                self.advance_pc();
            },
            _ => self.advance_pc(),
        }
    }

    /// The cycle of a machine waiting for a key: the lowest held key, if any,
    /// goes into `reg` and the machine runs again.
    fn resolve_key_wait(&mut self, reg: usize)
        requires
            old(self)@.wf(),
            reg < REGISTER_COUNT,
        ensures
            final(self)@ == resolve_wait(old(self)@, reg as int),
            final(self)@.wf(),
    {
        let mut k: usize = 0;
        while k < KEY_COUNT
            invariant
                k <= KEY_COUNT,
                reg < REGISTER_COUNT,
                self@ == old(self)@,
                self@.wf(),
                first_pressed(self@.keys, 0) == first_pressed(self@.keys, k as int),
            decreases KEY_COUNT - k,
        {
            if self.resources.key[k] {
                self.v_registers[reg] = k as u8;
                self.resources.key_wait = KeyWait::Running;
                return ;
            }
            k = k + 1;
        }
    }

    /// One cycle on the held keys `keyboard`, with `random` as the byte that
    /// `Cxkk` draws. Returns whether the frame buffer changed. A cycle that
    /// faults changes nothing.
    pub fn tick_with_random(&mut self, keyboard: [bool; 16], random: u8) -> (r: Result<bool, Fault>)
        requires
            old(self)@.wf(),
        ensures
            final(self)@.wf(),
            cycle_outcome(old(self)@, keyboard@, random, r, final(self)@),
    {
        match self.resources.key_wait {
            KeyWait::WaitingForKey(reg) => {
                self.resources.key = keyboard;
                self.resources.draw_flag = false;
                self.resolve_key_wait(reg);
                Ok(false)
            },
            KeyWait::Running => {
                let opcode = self.fetch_opcode();
                let nib = Chip8::decode_opcode(opcode);
                let is_ret = nib.first_bite == 0 && nib.x == 0 && nib.y == 0xE && nib.nibble == 0xE;
                if is_ret && self.sp == 0 {
                    return Err(Fault::StackUnderflow);
                }
                if nib.first_bite == 2 && self.sp >= STACK_SIZE {
                    return Err(Fault::StackOverflow);
                }
                self.resources.key = keyboard;
                self.resources.draw_flag = false;
                if self.delay_timer > 0 {
                    self.delay_timer = self.delay_timer - 1;
                }
                if self.sound_timer > 0 {
                    self.sound_timer = self.sound_timer - 1;
                }
                self.execute_opcode(&nib, random);
                Ok(self.resources.draw_flag)
            },
        }
    }

    /// One cycle on the held keys `keyboard`. Returns whether the frame buffer
    /// changed, or the fault that stopped the cycle, in which case nothing
    /// changed. The byte that `Cxkk` uses is drawn at random.
    pub fn tick(&mut self, keyboard: [bool; 16]) -> (r: Result<bool, Fault>)
        requires
            old(self)@.wf(),
        ensures
            final(self)@.wf(),
            exists|random: u8| #[trigger]
                cycle_outcome(old(self)@, keyboard@, random, r, final(self)@),
    {
        let random = random_byte();
        self.tick_with_random(keyboard, random)
    }
}

} // verus!
