use vstd::prelude::*;

use std::collections::VecDeque;

use crate::memory::{MemView, Memory};
use crate::ppu::{lcdc_spec, LCDC};
use crate::registers::bit_of;

verus! {

/// Address of the LY register (current scanline).
pub const LY: u16 = 0xFF44;

/// Address of the SCY register (background scroll y).
pub const SCY: u16 = 0xFF42;

/// Address of the SCX register (background scroll x).
pub const SCX: u16 = 0xFF43;

/// Address of the LCDC register.
pub const LCDC_ADDRESS: u16 = 0xFF40;

/// The background/window pixel FIFO with its pixel fetcher.
pub struct BackgroundFIFO {
    state: FIFOStage,
    queue: VecDeque<u8>,
    window_fetching: bool,
    pos_x: u16,
    window_line_count: u8,
    second_tcycle: bool,
}

/// Describes the step the FIFO fetcher is currently in. Each step corresponds to one dot, with
/// the last one possibly beeing executed multiple times before reseting the pixel fetcher.
#[derive(Debug, Clone, Copy, PartialEq, Eq)]
pub enum FIFOStage {
    GetTile,
    GetTileDataLow { tile_number: u8 },
    GetTileDataHigh { tile_number: u8, low_data: u8 },
    Push { low_data: u8, high_data: u8 },
}

/// The state of the FIFO: the fetcher step, the pixels waiting (front first), whether the window
/// is being fetched, the tile column, the window line counter and which half of its two-dot step
/// the fetcher is in.
pub struct FifoView {
    pub state: FIFOStage,
    pub queue: Seq<u8>,
    pub window_fetching: bool,
    pub pos_x: u16,
    pub window_line_count: u8,
    pub second_tcycle: bool,
}

/// The colour id (0-3) of pixel `bit` of a tile row: bit `bit` of the high byte is its high bit
/// and bit `bit` of the low byte its low bit.
pub open spec fn color_id(low: u8, high: u8, bit: u8) -> u8 {
    (2 * ((high >> bit) & 1) + ((low >> bit) & 1)) as u8
}

/// The eight pixels of a tile row, leftmost (bit 7) first.
pub open spec fn tile_row_pixels(low: u8, high: u8) -> Seq<u8> {
    Seq::new(8, |i: int| color_id(low, high, (7 - i) as u8))
}

/// A tile number read as a signed index (for the 0x9000-based addressing).
pub open spec fn signed_tile(tile_number: u8) -> int {
    if tile_number < 128 {
        tile_number as int
    } else {
        tile_number - 256
    }
}

/// The address of the first byte of tile `tile_number`'s data: unsigned from 0x8000 when
/// `unsigned_mode` is set, signed around 0x9000 otherwise.
pub open spec fn tile_data_address(unsigned_mode: bool, tile_number: u8) -> u16 {
    if unsigned_mode {
        (0x8000 + tile_number * 16) as u16
    } else {
        (0x9000 + signed_tile(tile_number) * 16) as u16
    }
}

/// The tile number (before truncation to a byte) that the fetcher reads in its first step.
pub open spec fn tile_index(f: FifoView, m: MemView) -> int {
    if f.window_fetching {
        32 * (f.window_line_count / 8) + f.pos_x
    } else {
        let line_y = m.peek(LY) as int;
        let scroll_y = m.peek(SCY) as int;
        let scroll_x = m.peek(SCX) as int;
        32 * (((line_y + scroll_y) / 8) % 32) + (f.pos_x + scroll_x / 8) % 32
    }
}

impl FifoView {
    pub open spec fn wf(self) -> bool {
        self.queue.len() <= 8
    }

    /// The FIFO after its front pixel is taken (unchanged when it holds none).
    pub open spec fn popped(self) -> FifoView {
        if self.queue.len() == 0 {
            self
        } else {
            FifoView { queue: self.queue.subrange(1, self.queue.len() as int), ..self }
        }
    }

    /// The FIFO after window fetching starts: the fetcher restarts and the queue is emptied.
    pub open spec fn window_started(self) -> FifoView {
        FifoView { state: FIFOStage::GetTile, queue: Seq::empty(), window_fetching: true, ..self }
    }

    /// Whether a step from this state keeps the tile column arithmetic in 16 bits.
    pub open spec fn step_fits(self, m: MemView) -> bool {
        !self.second_tcycle ==> match self.state {
            FIFOStage::GetTile => if self.window_fetching {
                self.pos_x + 32 * (self.window_line_count / 8) <= 0xFFFF
            } else {
                self.pos_x + m.peek(SCX) / 8 <= 0xFFFF
            },
            FIFOStage::Push { .. } => self.queue.len() == 0 ==> self.pos_x < 0xFFFF,
            _ => true,
        }
    }

    /// The FIFO after one dot. The fetcher acts on every other dot: it reads the tile number,
    /// then the low and the high byte of the tile row, then pushes the row's eight pixels once
    /// the queue is empty and moves to the next tile column.
    pub open spec fn step(self, m: MemView) -> FifoView {
        if self.second_tcycle {
            FifoView { second_tcycle: false, ..self }
        } else {
            let unsigned_mode = lcdc_spec(m.peek(LCDC_ADDRESS)).bg_tile_map_select;
            match self.state {
                FIFOStage::GetTile => FifoView {
                    second_tcycle: true,
                    state: FIFOStage::GetTileDataLow {
                        tile_number: (tile_index(self, m) % 256) as u8,
                    },
                    ..self
                },
                FIFOStage::GetTileDataLow { tile_number } => FifoView {
                    second_tcycle: true,
                    state: FIFOStage::GetTileDataHigh {
                        tile_number,
                        low_data: m.peek(tile_data_address(unsigned_mode, tile_number)),
                    },
                    ..self
                },
                FIFOStage::GetTileDataHigh { tile_number, low_data } => FifoView {
                    second_tcycle: true,
                    state: FIFOStage::Push {
                        low_data,
                        high_data: m.peek(
                            (tile_data_address(unsigned_mode, tile_number) + 1) as u16,
                        ),
                    },
                    ..self
                },
                FIFOStage::Push { low_data, high_data } => if self.queue.len() == 0 {
                    FifoView {
                        second_tcycle: true,
                        state: FIFOStage::GetTile,
                        queue: tile_row_pixels(low_data, high_data),
                        pos_x: (self.pos_x + 1) as u16,
                        ..self
                    }
                } else {
                    FifoView { second_tcycle: true, ..self }
                },
            }
        }
    }
}

impl View for BackgroundFIFO {
    type V = FifoView;

    closed spec fn view(&self) -> FifoView {
        FifoView {
            state: self.state,
            queue: self.queue@,
            window_fetching: self.window_fetching,
            pos_x: self.pos_x,
            window_line_count: self.window_line_count,
            second_tcycle: self.second_tcycle,
        }
    }
}

impl BackgroundFIFO {
    /// A FIFO waiting to fetch the first background tile, with nothing queued.
    pub open spec fn initial() -> FifoView {
        FifoView {
            state: FIFOStage::GetTile,
            queue: Seq::empty(),
            window_fetching: false,
            pos_x: 0,
            window_line_count: 0,
            second_tcycle: false,
        }
    }

    pub fn new() -> (r: Self)
        ensures
            r@ == BackgroundFIFO::initial(),
    {
        Self {
            state: FIFOStage::GetTile,
            queue: VecDeque::with_capacity(16),
            window_fetching: false,
            pos_x: 0,
            window_line_count: 0,
            second_tcycle: false,
        }
    }

    pub fn step(&mut self, memory: &mut Memory)
        requires
            old(self)@.wf(),
            old(memory)@.wf(),
            old(self)@.step_fits(old(memory)@),
        ensures
            final(self)@ == old(self)@.step(old(memory)@),
            final(self)@.wf(),
            final(memory)@ == old(memory)@,
    {
        if self.second_tcycle {
            self.second_tcycle = false;
            return ;
        } else {
            self.second_tcycle = true;
        }

        let lcdc = LCDC::from_byte(memory.get_byte(LCDC_ADDRESS));

        match self.state {
            FIFOStage::GetTile => {
                let mut tile_number: u16 = 0;

                if self.window_fetching {
                    // To select the correct row of tiles (32 tile rows long in memory and 8x8
                    // pixels per tile)
                    tile_number += 32 * (self.window_line_count as u16 / 8);

                    // To select the correct tile in the row
                    tile_number += self.pos_x;
                } else {
                    let line_y = memory.get_byte(LY) as u16;
                    let scroll_y = memory.get_byte(SCY) as u16;

                    // Select the correct row of tiles by adding the current scanline and the
                    // scroll offset together and using modulo to wrap around after the tile map.
                    let combined = (line_y + scroll_y) / 8;

                    // Divide by 8 to get the y offset in tiles and multiply by 32 to get the
                    // index in memory
                    tile_number = 32 * (combined % 32);

                    // Select the correct tile in the row
                    let scroll_x = memory.get_byte(SCX) as u16;
                    tile_number += (self.pos_x + scroll_x / 8) % 32;
                }

                self.state = FIFOStage::GetTileDataLow { tile_number: (tile_number % 256) as u8 };
                assert(self@ == old(self)@.step(old(memory)@));
            },
            FIFOStage::GetTileDataLow { tile_number } => {
                let tile_data_address = Self::tile_address(lcdc.bg_tile_map_select, tile_number);
                let low_data = memory.get_byte(tile_data_address);
                self.state = FIFOStage::GetTileDataHigh { tile_number, low_data };
                assert(self@ == old(self)@.step(old(memory)@));
            },
            FIFOStage::GetTileDataHigh { tile_number, low_data } => {
                let tile_data_address = Self::tile_address(lcdc.bg_tile_map_select, tile_number);
                let high_data = memory.get_byte(tile_data_address + 1);
                self.state = FIFOStage::Push { low_data, high_data };
                assert(self@ == old(self)@.step(old(memory)@));
            },
            FIFOStage::Push { low_data, high_data } => {
                if self.queue.len() == 0 {
                    let mut i: u8 = 8;
                    while i > 0
                        invariant
                            0 <= i <= 8,
                            self.pos_x == old(self).pos_x,
                            self.state == old(self).state,
                            self.second_tcycle,
                            self.window_fetching == old(self).window_fetching,
                            self.window_line_count == old(self).window_line_count,
                            old(self)@.step_fits(old(memory)@),
                            !old(self)@.second_tcycle,
                            old(self)@.queue.len() == 0,
                            self.queue@ =~= tile_row_pixels(low_data, high_data).subrange(
                                0,
                                8 - i,
                            ),
                        decreases i,
                    {
                        i -= 1;
                        let low_bit = (low_data >> i) & 1;
                        let high_bit = (high_data >> i) & 1;
                        let color_id = (high_bit << 1) | low_bit;
                        proof {
                            lemma_color_bits(low_data, high_data, i);
                            assert(tile_row_pixels(low_data, high_data)[7 - i] == crate::ppu::background_fifo::color_id(low_data, high_data, i));
                        }
                        self.queue.push_back(color_id);
                    }
                    assert(self.queue@ =~= tile_row_pixels(low_data, high_data));
                    self.state = FIFOStage::GetTile;
                    self.pos_x += 1;
                }
            },
        }
    }

    /// The address of the first byte of a tile's data in the addressing mode selected.
    fn tile_address(unsigned_mode: bool, tile_number: u8) -> (r: u16)
        ensures
            r == tile_data_address(unsigned_mode, tile_number),
            r <= 0x97F0,
    {
        if unsigned_mode {
            0x8000 + (tile_number as u16) * 16
        } else if tile_number < 128 {
            // A signed tile number: 0-127 count up from 0x9000.
            0x9000 + (tile_number as u16) * 16
        } else {
            // A signed tile number: 128-255 stand for -128..-1 below 0x9000.
            0x9000 - (256 - tile_number as u16) * 16
        }
    }

    /// The tile column the fetcher has reached.
    pub fn pos_x(&self) -> (r: u16)
        ensures
            r == self@.pos_x,
    {
        self.pos_x
    }

    pub fn take_pixel(&mut self) -> (r: Option<u8>)
        ensures
            r == (if old(self)@.queue.len() == 0 {
                None
            } else {
                Some(old(self)@.queue[0])
            }),
            final(self)@ == old(self)@.popped(),
    {
        self.queue.pop_front()
    }

    pub fn start_window(&mut self)
        ensures
            final(self)@ == old(self)@.window_started(),
    {
        self.state = FIFOStage::GetTile;
        self.queue.clear();
        self.window_fetching = true;
    }

    pub fn start_line(&mut self)
        requires
            old(self)@.window_fetching ==> old(self)@.window_line_count < 0xFF,
        ensures
            final(self)@ == (FifoView {
                state: FIFOStage::GetTile,
                queue: Seq::empty(),
                pos_x: 0,
                window_line_count: if old(self)@.window_fetching {
                    (old(self)@.window_line_count + 1) as u8
                } else {
                    old(self)@.window_line_count
                },
                window_fetching: false,
                ..old(self)@
            }),
    {
        self.state = FIFOStage::GetTile;
        self.queue.clear();
        self.pos_x = 0;

        if self.window_fetching {
            self.window_line_count += 1;
        }
        self.window_fetching = false;
    }

    pub fn reset(&mut self)
        ensures
            final(self)@ == (FifoView {
                state: FIFOStage::GetTile,
                queue: Seq::empty(),
                window_fetching: false,
                pos_x: 0,
                window_line_count: 0,
                ..old(self)@
            }),
    {
        self.state = FIFOStage::GetTile;
        self.queue.clear();
        self.window_fetching = false;
        self.pos_x = 0;
        self.window_line_count = 0;
    }
}

proof fn lemma_color_bits(low: u8, high: u8, i: u8)
    requires
        i < 8,
    ensures
        (((high >> i) & 1) << 1) | ((low >> i) & 1) == color_id(low, high, i),
{
    assert((((high >> i) & 1) << 1) | ((low >> i) & 1) == 2 * ((high >> i) & 1) + ((low >> i)
        & 1)) by (bit_vector);
}


/// When the fetcher pushes into an empty queue, the queue receives the eight pixels of the tile
/// row, leftmost first, each a colour id from 0 to 3, and the fetcher moves on to the next tile
/// column. While pixels are still queued, the push waits and the queue is untouched.
pub proof fn law_push_tile_row(f: FifoView, m: MemView, low: u8, high: u8)
    requires
        f.state == (FIFOStage::Push { low_data: low, high_data: high }),
        !f.second_tcycle,
        f.step_fits(m),
    ensures
        f.queue.len() == 0 ==> f.step(m).queue == tile_row_pixels(low, high),
        f.queue.len() == 0 ==> f.step(m).pos_x == f.pos_x + 1,
        f.queue.len() == 0 ==> f.step(m).state == FIFOStage::GetTile,
        f.queue.len() > 0 ==> f.step(m).queue == f.queue && f.step(m).state == f.state,
        forall|i: int| 0 <= i < 8 ==> #[trigger] tile_row_pixels(low, high)[i] <= 3,
{
    assert(forall|x: u8, b: u8| #[trigger] ((x >> b) & 1) <= 1) by (bit_vector);
}


/// `n` steps of the FIFO with memory `m`.
pub open spec fn fifo_steps(f: FifoView, m: MemView, n: nat) -> FifoView
    decreases n,
{
    if n == 0 {
        f
    } else {
        fifo_steps(f, m, (n - 1) as nat).step(m)
    }
}

/// The fetcher works on every other dot: in the second half of a fetcher step a step reads
/// nothing from memory and only flips the half-step flag, leaving the queue, stage, tile column
/// and window state as they are.
pub proof fn law_fifo_rests_every_other_dot(f: FifoView, m: MemView, other: MemView)
    requires
        f.second_tcycle,
    ensures
        f.step(m) == (FifoView { second_tcycle: false, ..f }),
        f.step(m) == f.step(other),
{
}

/// Every step flips the half-step flag, so from a fresh FIFO the fetcher works exactly on the
/// odd-numbered steps (the first, third, ...) and rests on the even-numbered ones.
pub proof fn law_fifo_half_step_parity(f: FifoView, m: MemView, n: nat)
    ensures
        fifo_steps(f, m, n).second_tcycle == (f.second_tcycle != (n % 2 == 1)),
        f == BackgroundFIFO::initial() ==> fifo_steps(f, m, n).second_tcycle == (n % 2 == 1),
    decreases n,
{
    if n > 0 {
        law_fifo_half_step_parity(f, m, (n - 1) as nat);
    }
}

/// The queue never holds more than eight pixels: a step leaves a non-empty queue as it is (the
/// push waits), and an empty queue either stays empty or receives exactly eight pixels.
pub proof fn law_fifo_queue_bound(f: FifoView, m: MemView)
    requires
        f.wf(),
    ensures
        f.step(m).wf(),
        f.queue.len() > 0 ==> f.step(m).queue == f.queue,
        f.queue.len() == 0 ==> (f.step(m).queue.len() == 0 || f.step(m).queue.len() == 8),
{
}


/// Where a tile's sixteen bytes of data lie. In unsigned mode tile `t` starts at
/// 0x8000 + 16 * t. In signed mode the tile number is a two's complement byte around 0x9000:
/// tiles 0..=127 start at 0x9000 + 16 * t and tiles 128..=255 (that is, -128..=-1) lie below
/// 0x9000, from 0x8800 on. Either way distinct tiles get distinct, non-overlapping data.
pub proof fn law_tile_data_addressing(unsigned_mode: bool, t: u8, u: u8)
    ensures
        unsigned_mode ==> tile_data_address(unsigned_mode, t) == 0x8000 + 16 * t,
        !unsigned_mode ==> tile_data_address(unsigned_mode, t) == 0x9000 + 16 * (t as i8),
        !unsigned_mode && t < 128 ==> tile_data_address(unsigned_mode, t) == 0x9000 + 16 * t,
        !unsigned_mode && t >= 128 ==> 0x8800 <= tile_data_address(unsigned_mode, t) < 0x9000
            && tile_data_address(unsigned_mode, t) == 0x8800 + 16 * (t - 128),
        tile_data_address(unsigned_mode, t) % 16 == 0,
        t != u ==> tile_data_address(unsigned_mode, t) != tile_data_address(unsigned_mode, u),
{
    assert((t >= 128 ==> (t as i8) as int == t - 256) && (t < 128 ==> (t as i8) as int == t))
        by (bit_vector);
}


/// Pixel `i` of a tile row (0 the leftmost) takes bit 7 - i of the high byte as the high bit of
/// its colour id and bit 7 - i of the low byte as the low bit.
pub proof fn law_tile_row_colours(low: u8, high: u8, i: int)
    requires
        0 <= i < 8,
    ensures
        tile_row_pixels(low, high)[i] == (if bit_of(high, (7 - i) as u8) { 2int } else { 0int }) + (
        if bit_of(low, (7 - i) as u8) {
            1int
        } else {
            0int
        }),
{
    let b = (7 - i) as u8;
    assert(b < 8 ==> ((high >> b) & 1 == 1) == (high & (1u8 << b) != 0) && ((high >> b) & 1 == 0)
        == (high & (1u8 << b) == 0) && ((low >> b) & 1 == 1) == (low & (1u8 << b) != 0) && ((low
        >> b) & 1 == 0) == (low & (1u8 << b) == 0) && ((high >> b) & 1) <= 1 && ((low >> b) & 1)
        <= 1) by (bit_vector);
}

} // verus!
