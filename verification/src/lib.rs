use vstd::prelude::*;

use crate::cpu::{lemma_room_allows_step, lemma_step_room, shows, CpuView, CPU, MAX_STEP_CYCLES};
use crate::ppu::{column_measure, lemma_fetch_phase_nonnegative};
use crate::memory::{load_rom_spec, Memory};
use crate::messages::load_failed_text;
use crate::ppu::PPU;
use crate::registers::Registers;

pub mod cpu;
pub mod header;
pub mod mbc;
pub mod memory;
pub mod messages;
pub mod ppu;
pub mod registers;

verus! {

/// Number of steps in `step_frame`.
pub const STEPS_PER_FRAME: u32 = 70224;

/// A Game Boy: the processor with its memory map and PPU.
pub struct Emulator {
    cpu: CPU,
}

/// What the emulator shows after it ran.
#[derive(Debug, Clone)]
pub struct DebugView {
    /// The total number of cycles since the emulator started.
    pub cycles: u64,
    /// The current value of the registers.
    pub registers: registers::Registers,
    /// All opcodes and their index in memory executed since the last debug view was generated.
    pub opcodes: Vec<(u16, u8)>,
    /// Any errors encountered during execution (e.g., unknown opcodes).
    pub errors: Vec<String>,
    /// The framebuffer
    pub framebuffer: [[u8; 160]; 144],
}

impl View for Emulator {
    type V = CpuView;

    closed spec fn view(&self) -> CpuView {
        self.cpu@
    }
}

impl Emulator {
    /// The machine at power-on: no cartridge, zeroed memory and registers, the PPU at the start
    /// of the first OAM scan, nothing executed.
    pub open spec fn power_on() -> CpuView {
        CpuView {
            memory: Memory::initial(),
            ppu: PPU::initial(),
            cycles: 0,
            reg: Registers::zeroed(),
            opcodes: Seq::empty(),
            errors: Seq::empty(),
        }
    }

    pub fn new() -> (r: Self)
        ensures
            r@ == Emulator::power_on(),
            r@.wf(),
    {
        let memory = crate::memory::Memory::new();
        let cpu = crate::cpu::CPU::new(memory);
        Self { cpu }
    }

    /// Inserts the cartridge of `rom`. On failure the reason is recorded among the errors and
    /// returned, prefixed.
    pub fn load_rom(&mut self, rom: Vec<u8>) -> (r: Result<(), String>)
        requires
            old(self)@.wf(),
        ensures
            final(self)@.wf(),
            final(self)@ == old(self)@.load_rom(rom@),
            (match (r, load_rom_spec(old(self)@.memory, rom@).1) {
                (Ok(()), Ok(())) => true,
                (Err(e), Err(t)) => e@ == load_failed_text(t),
                _ => false,
            }),
    {
        self.cpu.load_rom(rom)
    }

    /// Whether the counters leave room for another step.
    pub fn can_step(&self) -> (r: bool)
        requires
            self@.wf(),
        ensures
            r == self@.can_step(),
    {
        self.cpu.can_step()
    }

    /// Executes one step and shows the machine after it.
    pub fn step(&mut self) -> (v: DebugView)
        requires
            old(self)@.wf(),
            old(self)@.can_step(),
        ensures
            final(self)@.wf(),
            shows(v, old(self)@.step()),
            final(self)@ == old(self)@.step().drained(),
    {
        proof {
            crate::ppu::lemma_tcycles_room(self@.ppu, self@.memory, 4);
        }
        self.cpu.step();
        self.cpu.debug_view()
    }

    /// Executes 70224 steps (fewer if the counters run out of room) and shows the machine after
    /// them. Errors do not stop it. When the counters have room for all 70224 steps (as they
    /// have from power-on), all of them run and every executed opcode is shown.
    pub fn step_frame(&mut self) -> (v: DebugView)
        requires
            old(self)@.wf(),
        ensures
            final(self)@.wf(),
            shows(v, old(self)@.steps(STEPS_PER_FRAME as nat)),
            final(self)@ == old(self)@.steps(STEPS_PER_FRAME as nat).drained(),
            old(self)@.room_for_steps(STEPS_PER_FRAME as nat) ==> v.opcodes@.len()
                == old(self)@.opcodes.len() + STEPS_PER_FRAME,
    {
        let ghost start = self.cpu@;
        let ghost room = start.room_for_steps(STEPS_PER_FRAME as nat);
        let mut i: u32 = 0;
        while i < STEPS_PER_FRAME
            invariant
                i <= STEPS_PER_FRAME,
                self.cpu@.wf(),
                start == old(self)@,
                room == start.room_for_steps(STEPS_PER_FRAME as nat),
                self.cpu@.steps((STEPS_PER_FRAME - i) as nat) == start.steps(
                    STEPS_PER_FRAME as nat,
                ),
                room ==> {
                    &&& self.cpu@.cycles <= start.cycles + MAX_STEP_CYCLES * i
                    &&& self.cpu@.ppu.frame <= start.ppu.frame + 4 * i
                    &&& column_measure(self.cpu@.ppu.bgw) <= column_measure(start.ppu.bgw) + 4 * i
                    &&& self.cpu@.opcodes.len() == start.opcodes.len() + i
                },
            ensures
                self.cpu@.wf(),
                self.cpu@ == start.steps(STEPS_PER_FRAME as nat),
                room ==> self.cpu@.opcodes.len() == start.opcodes.len() + STEPS_PER_FRAME,
            decreases STEPS_PER_FRAME - i,
        {
            if !self.cpu.can_step() {
                proof {
                    if room {
                        lemma_fetch_phase_nonnegative(self.cpu@.ppu.bgw);
                        lemma_room_allows_step(start, self.cpu@, STEPS_PER_FRAME as nat, i as nat);
                    }
                }
                break;
            }
            proof {
                crate::ppu::lemma_tcycles_room(self.cpu@.ppu, self.cpu@.memory, 4);
                lemma_step_room(self.cpu@);
            }
            self.cpu.step();
            i += 1;
        }
        self.cpu.debug_view()
    }

    /// Steps until a step records an error (or the counters run out of room) and shows the
    /// machine after it.
    pub fn run(&mut self) -> (v: DebugView)
        requires
            old(self)@.wf(),
        ensures
            final(self)@.wf(),
            shows(v, old(self)@.run()),
            final(self)@ == old(self)@.run().drained(),
    {
        self.cpu.execute();
        self.cpu.debug_view()
    }
}


/// From power-on the counters have room for a whole `step_frame`, so it runs all 70224 steps.
pub proof fn law_power_on_has_room_for_a_frame()
    ensures
        Emulator::power_on().room_for_steps(STEPS_PER_FRAME as nat),
{
}

} // verus!
