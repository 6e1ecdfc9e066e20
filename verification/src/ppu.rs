use vstd::prelude::*;

use crate::memory::{MemView, Memory, INTERRUPT_ENABLE, INTERRUPT_FLAG};
use background_fifo::{BackgroundFIFO, FIFOStage, FifoView, LCDC_ADDRESS};

pub mod background_fifo;

verus! {

/// Address of the WX register (window x position plus 7).
pub const WX: u16 = 0xFF4B;

/// Start of object attribute memory.
pub const OAM_START: u16 = 0xFE00;

/// Number of dots (t-cycles) in a scanline.
pub const DOTS_PER_LINE: u16 = 456;

/// Number of t-cycles of the OAM scan at the start of a visible line.
pub const OAM_SCAN_DOTS: u16 = 80;

/// Visible width of the screen.
pub const SCREEN_WIDTH: usize = 160;

/// Visible height of the screen.
pub const SCREEN_HEIGHT: usize = 144;

/// The picture processing unit: it scans OAM, draws the background through its pixel FIFO into
/// the framebuffer, and steps through the scanlines and blanking periods of each frame.
pub struct PPU {
    // General state
    // Note to self: Everything is 0-based
    /// Frame number
    frame: u64,
    /// Currently drawn line
    scanline: u8,
    /// Currently drawn dot in line
    dot: u8,
    /// Current t-cycle in line, resets after 456 t-cycles
    tcycle: u16,
    /// Delay counter in t-cycles
    delay: usize,
    /// Current PPU mode
    mode: PPUState,
    // OAM Scan state
    /// The sprites that are selected for rendering during OAM are stored here
    oam_scan: [[u8; 4]; 10],
    /// How many sprites have already been selected
    oams_index: usize,
    /// Whether the sprite was selected for rendering last t-cycle
    oams_used_last: bool,
    // Drawing state
    /// Background/Window FIFO and Pixel fetcher
    bgw_fifo: BackgroundFIFO,
    /// Object FIFO and Pixel fetcher
    obj_fifo: BackgroundFIFO,
    /// Whether window fetching has started this frame (y position has been reached)
    window_fetching_y: bool,
    /// Whether window fetching has started this line (x position has been reached)
    window_fetching_x: bool,
    /// The framebuffer
    framebuffer: [[u8; 160]; 144],
}

/// Describes the current mode of the PPU.
#[derive(Debug, Clone, Copy, PartialEq, Eq, Structural)]
pub enum PPUState {
    HBlank,
    VBlank,
    OAMScan,
    Drawing,
}

/// The state of the PPU, with the selected sprites and the framebuffer as rows of bytes.
pub struct PpuView {
    pub frame: u64,
    pub scanline: u8,
    pub dot: u8,
    pub tcycle: u16,
    pub delay: usize,
    pub mode: PPUState,
    pub oam_scan: Seq<Seq<u8>>,
    pub oams_index: usize,
    pub oams_used_last: bool,
    pub bgw: FifoView,
    pub obj: FifoView,
    pub window_fetching_y: bool,
    pub window_fetching_x: bool,
    pub framebuffer: Seq<Seq<u8>>,
}

/// Position of a fetcher state in its four-step cycle, counted in dots: each step takes two dots
/// and the count grows by one with every dot spent waiting or working.
pub open spec fn fetch_phase(f: FifoView) -> int {
    let step = match f.state {
        FIFOStage::GetTile => 0int,
        FIFOStage::GetTileDataLow { .. } => 1,
        FIFOStage::GetTileDataHigh { .. } => 2,
        FIFOStage::Push { .. } => 3,
    };
    2 * step + if f.second_tcycle { 0int } else { 1 }
}

/// A measure of how far the background FIFO is from delivering its next pixels; twice the pixels
/// drawn plus this measure grows by at least one every dot of the drawing mode.
pub open spec fn fetch_potential(f: FifoView) -> int {
    let q = f.queue.len() as int;
    match f.state {
        FIFOStage::Push { .. } => 7 + q - if f.second_tcycle != (q % 2 == 1) {
            1int
        } else {
            0
        },
        _ => fetch_phase(f) + q,
    }
}

/// The rows of a two-dimensional byte array.
pub open spec fn rows4(a: [[u8; 4]; 10]) -> Seq<Seq<u8>> {
    a@.map_values(|r: [u8; 4]| r@)
}

/// The rows of the framebuffer.
pub open spec fn rows160(a: [[u8; 160]; 144]) -> Seq<Seq<u8>> {
    a@.map_values(|r: [u8; 160]| r@)
}

impl PpuView {
    pub open spec fn wf(self) -> bool {
        &&& self.delay == 0
        &&& self.scanline <= 153
        &&& self.tcycle < DOTS_PER_LINE
        &&& self.dot < SCREEN_WIDTH
        &&& self.oams_index <= 10
        &&& !self.window_fetching_y
        &&& self.bgw.wf()
        &&& self.obj.wf()
        &&& !self.bgw.window_fetching
        &&& !self.obj.window_fetching
        &&& ((self.obj.pos_x == 0 && self.obj.queue.len() == 0) || (self.obj.pos_x == 1
            && self.obj.queue.len() == 8))
        &&& self.oam_scan.len() == 10
        &&& (forall|i: int| 0 <= i < 10 ==> (#[trigger] self.oam_scan[i]).len() == 4)
        &&& self.framebuffer.len() == SCREEN_HEIGHT
        &&& (forall|y: int| 0 <= y < SCREEN_HEIGHT ==> (#[trigger] self.framebuffer[y]).len() == SCREEN_WIDTH)
        &&& match self.mode {
            PPUState::OAMScan => self.tcycle < OAM_SCAN_DOTS && self.scanline < SCREEN_HEIGHT,
            PPUState::Drawing => {
                &&& OAM_SCAN_DOTS <= self.tcycle
                &&& self.scanline < SCREEN_HEIGHT
                &&& self.dot < SCREEN_WIDTH
                &&& 2 * self.dot + fetch_potential(self.bgw) >= self.tcycle - OAM_SCAN_DOTS
            },
            PPUState::HBlank => self.scanline < SCREEN_HEIGHT && OAM_SCAN_DOTS <= self.tcycle,
            PPUState::VBlank => self.scanline >= SCREEN_HEIGHT,
        }
    }

    /// Whether the next dot stays within the counters: the frame counter when a frame ends, and
    /// the background fetcher's tile column while drawing.
    pub open spec fn tcycle_fits(self, m: MemView) -> bool {
        &&& (self.scanline == 153 && self.tcycle == 455) ==> self.frame < u64::MAX
        &&& self.mode == PPUState::Drawing ==> self.bgw.step_fits(m)
    }

    /// The work of one dot in the current mode.
    pub open spec fn exec_tcycle(self, m: MemView) -> PpuView {
        let lcdc = lcdc_spec(m.peek(LCDC_ADDRESS));
        let i = self.oams_index as int;
        match self.mode {
            PPUState::VBlank => self,
            PPUState::HBlank => self,
            PPUState::OAMScan => if self.oams_index >= 10 {
                self
            } else if self.tcycle % 2 == 0 {
                let b0 = m.peek((OAM_START + self.tcycle * 2) as u16);
                let b1 = m.peek((OAM_START + self.tcycle * 2 + 1) as u16);
                let height: int = if lcdc.obj_size { 16 } else { 8 };
                if b0 <= self.scanline && self.scanline < b0 + height {
                    PpuView {
                        oam_scan: self.oam_scan.update(i, self.oam_scan[i].update(0, b0).update(1, b1)),
                        oams_used_last: true,
                        ..self
                    }
                } else {
                    PpuView { oams_used_last: false, ..self }
                }
            } else if self.oams_used_last {
                let b2 = m.peek((OAM_START + self.tcycle * 2) as u16);
                let b3 = m.peek((OAM_START + self.tcycle * 2 + 1) as u16);
                PpuView {
                    oam_scan: self.oam_scan.update(i, self.oam_scan[i].update(2, b2).update(3, b3)),
                    oams_index: (self.oams_index + 1) as usize,
                    ..self
                }
            } else {
                self
            },
            PPUState::Drawing => {
                let bgw = self.bgw.step(m);
                let obj = self.obj.step(m);
                if bgw.queue.len() > 0 {
                    let pixel = bgw.queue[0];
                    let y = self.scanline as int;
                    let framebuffer = self.framebuffer.update(y, self.framebuffer[y].update(self.dot as int, pixel));
                    let dot = (self.dot + 1) as u8;
                    if lcdc.window_display_enable && !self.window_fetching_x
                        && self.window_fetching_y && dot >= m.peek(WX) - 7 {
                        PpuView {
                            bgw: bgw.popped().window_started(),
                            obj,
                            framebuffer,
                            dot,
                            window_fetching_x: true,
                            ..self
                        }
                    } else {
                        PpuView { bgw: bgw.popped(), obj, framebuffer, dot, ..self }
                    }
                } else {
                    PpuView { bgw, obj, ..self }
                }
            },
        }
    }

    /// Entering `mode`: OAM scan resets the sprite selection and takes OAM; drawing restarts the
    /// line and takes OAM and VRAM; the blanking modes release both and request their interrupt
    /// (LCD STAT for HBlank, VBlank for VBlank).
    pub open spec fn set_mode(self, m: MemView, mode: PPUState) -> (PpuView, MemView) {
        let p = PpuView { mode, ..self };
        match mode {
            PPUState::OAMScan => (
                PpuView { oams_index: 0, oams_used_last: false, ..p },
                MemView { oam_access: false, vram_access: true, ..m },
            ),
            PPUState::Drawing => (
                PpuView { dot: 0, ..p },
                MemView { oam_access: false, vram_access: false, ..m },
            ),
            PPUState::HBlank => (
                p,
                MemView { oam_access: true, vram_access: true, ..m }.request_interrupt(1),
            ),
            PPUState::VBlank => (
                p,
                MemView { oam_access: true, vram_access: true, ..m }.request_interrupt(0),
            ),
        }
    }

    /// One dot: the work of the current mode, then the mode changes that the new dot count
    /// brings: drawing starts after the OAM scan, HBlank follows once 160 pixels are drawn, and
    /// after 456 dots the next line starts (VBlank for lines 144-153, a new frame after 153).
    pub open spec fn step_tcycle(self, m: MemView) -> (PpuView, MemView) {
        if self.delay > 0 {
            (PpuView { delay: (self.delay - 1) as usize, tcycle: (self.tcycle + 1) as u16, ..self }, m)
        } else {
            let p = self.exec_tcycle(m);
            let p = PpuView { tcycle: (p.tcycle + 1) as u16, ..p };
            if p.tcycle == OAM_SCAN_DOTS && p.mode == PPUState::OAMScan {
                p.set_mode(m, PPUState::Drawing)
            } else if p.dot == 160 && p.mode == PPUState::Drawing {
                let (p, m) = p.set_mode(m, PPUState::HBlank);
                (PpuView { dot: 0, ..p }, m)
            } else if p.tcycle == DOTS_PER_LINE {
                let p = PpuView { tcycle: 0, scanline: (p.scanline + 1) as u8, ..p };
                if p.scanline <= 143 {
                    p.set_mode(m, PPUState::OAMScan)
                } else if p.scanline == 154 {
                    let (p, m) = p.set_mode(m, PPUState::OAMScan);
                    (PpuView { scanline: 0, frame: (p.frame + 1) as u64, ..p }, m)
                } else {
                    p.set_mode(m, PPUState::VBlank)
                }
            } else {
                (p, m)
            }
        }
    }
}

/// `n` dots from `(p, m)`.
pub open spec fn step_tcycles(p: PpuView, m: MemView, n: nat) -> (PpuView, MemView)
    decreases n,
{
    if n == 0 {
        (p, m)
    } else {
        let (p1, m1) = step_tcycles(p, m, (n - 1) as nat);
        p1.step_tcycle(m1)
    }
}

/// Whether each of `n` dots from `(p, m)` stays within the counters.
pub open spec fn tcycles_fit(p: PpuView, m: MemView, n: nat) -> bool
    decreases n,
{
    n == 0 || {
        let (p1, m1) = step_tcycles(p, m, (n - 1) as nat);
        tcycles_fit(p, m, (n - 1) as nat) && p1.tcycle_fits(m1)
    }
}

impl View for PPU {
    type V = PpuView;

    closed spec fn view(&self) -> PpuView {
        PpuView {
            frame: self.frame,
            scanline: self.scanline,
            dot: self.dot,
            tcycle: self.tcycle,
            delay: self.delay,
            mode: self.mode,
            oam_scan: rows4(self.oam_scan),
            oams_index: self.oams_index,
            oams_used_last: self.oams_used_last,
            bgw: self.bgw_fifo@,
            obj: self.obj_fifo@,
            window_fetching_y: self.window_fetching_y,
            window_fetching_x: self.window_fetching_x,
            framebuffer: rows160(self.framebuffer),
        }
    }
}

impl PPU {
    /// A PPU at the start of the first line's OAM scan, with a blank framebuffer.
    pub open spec fn initial() -> PpuView {
        PpuView {
            frame: 0,
            scanline: 0,
            dot: 0,
            tcycle: 0,
            delay: 0,
            mode: PPUState::OAMScan,
            oam_scan: Seq::new(10, |i: int| Seq::new(4, |j: int| 0u8)),
            oams_index: 0,
            oams_used_last: false,
            bgw: BackgroundFIFO::initial(),
            obj: BackgroundFIFO::initial(),
            window_fetching_y: false,
            window_fetching_x: false,
            framebuffer: Seq::new(144, |i: int| Seq::new(160, |j: int| 0u8)),
        }
    }

    pub fn new() -> (r: Self)
        ensures
            r@ == PPU::initial(),
            r@.wf(),
    {
        let r = Self {
            frame: 0,
            scanline: 0,
            dot: 0,
            tcycle: 0,
            delay: 0,
            mode: PPUState::OAMScan,
            oam_scan: [[0; 4]; 10],
            oams_index: 0,
            oams_used_last: false,
            bgw_fifo: BackgroundFIFO::new(),
            obj_fifo: BackgroundFIFO::new(),
            window_fetching_y: false,
            window_fetching_x: false,
            framebuffer: [[0; 160]; 144],
        };
        proof {
            broadcast use vstd::array::group_array_axioms;

            let zero4 = vstd::array::spec_array_fill_for_copy_type::<u8, 4>(0u8);
            let zero160 = vstd::array::spec_array_fill_for_copy_type::<u8, 160>(0u8);
            assert(zero4@ =~= Seq::new(4, |j: int| 0u8));
            assert(zero160@ =~= Seq::new(160, |j: int| 0u8));
            assert(r@.oam_scan =~= PPU::initial().oam_scan);
            assert(r@.framebuffer =~= PPU::initial().framebuffer);
        }
        r
    }

    /// The number of frames completed.
    pub fn frame(&self) -> (r: u64)
        ensures
            r == self@.frame,
    {
        self.frame
    }

    /// The tile column the background fetcher has reached.
    pub fn background_column(&self) -> (r: u16)
        ensures
            r == self@.bgw.pos_x,
    {
        self.bgw_fifo.pos_x()
    }

    pub fn get_framebuffer(&self) -> (r: &[[u8; 160]; 144])
        ensures
            rows160(*r) == self@.framebuffer,
    {
        &self.framebuffer
    }

    pub fn step_mcycle(&mut self, memory: &mut Memory)
        requires
            old(self)@.wf(),
            old(memory)@.wf(),
            tcycles_fit(old(self)@, old(memory)@, 4),
        ensures
            (final(self)@, final(memory)@) == step_tcycles(old(self)@, old(memory)@, 4),
            final(self)@.wf(),
            final(memory)@.wf(),
    {
        let mut i: u8 = 0;
        while i < 4
            invariant
                i <= 4,
                self@.wf(),
                memory@.wf(),
                tcycles_fit(old(self)@, old(memory)@, 4),
                (self@, memory@) == step_tcycles(old(self)@, old(memory)@, i as nat),
            decreases 4 - i,
        {
            proof {
                lemma_tcycles_fit_prefix(old(self)@, old(memory)@, 4, (i + 1) as nat);
            }
            self.step_tcycle(memory);
            i += 1;
        }
    }

    pub fn step_tcycle(&mut self, memory: &mut Memory)
        requires
            old(self)@.wf(),
            old(memory)@.wf(),
            old(self)@.tcycle_fits(old(memory)@),
        ensures
            (final(self)@, final(memory)@) == old(self)@.step_tcycle(old(memory)@),
            final(self)@.wf(),
            final(memory)@.wf(),
    {
        proof {
            lemma_step_tcycle(old(self)@, old(memory)@);
        }
        if self.delay > 0 {
            self.delay -= 1;
            self.tcycle += 1;
            return ;
        }
        self.exec_tcycle(memory);

        self.tcycle += 1;
        if self.tcycle == 80 && self.mode == PPUState::OAMScan {
            self.set_mode(PPUState::Drawing, memory);
        } else if self.dot == 160 && self.mode == PPUState::Drawing {
            self.set_mode(PPUState::HBlank, memory);
            self.dot = 0;
        } else if self.tcycle == 456 {
            self.tcycle = 0;
            self.scanline += 1;

            if self.scanline <= 143 {
                self.set_mode(PPUState::OAMScan, memory);
            } else if self.scanline == 154 {
                self.set_mode(PPUState::OAMScan, memory);
                self.scanline = 0;
                self.frame += 1;
            } else {
                self.set_mode(PPUState::VBlank, memory);
            }
        }
    }

    fn exec_tcycle(&mut self, memory: &mut Memory)
        requires
            old(self)@.wf(),
            old(memory)@.wf(),
            old(self)@.tcycle_fits(old(memory)@),
            old(self)@.delay == 0,
        ensures
            final(self)@ == old(self)@.exec_tcycle(old(memory)@),
            final(memory)@ == old(memory)@,
    {
        // Extract the lcdc (LDC-Control) register
        let lcdc = LCDC::from_byte(memory.get_byte(LCDC_ADDRESS));

        match self.mode {
            PPUState::VBlank => {},
            PPUState::HBlank => {},
            PPUState::OAMScan => {
                if self.oams_index >= 10 {
                    // No more than 10 sprites can be rendered per scanline, so skip the rest of
                    // OAM scan
                    return ;
                }
                let i = self.oams_index;
                if self.tcycle % 2 == 0 {
                    // Read first two bytes of Object Attribute
                    let b0 = memory.get_byte(OAM_START + self.tcycle * 2);
                    let b1 = memory.get_byte(OAM_START + self.tcycle * 2 + 1);
                    let height: u8 = if lcdc.obj_size { 16 } else { 8 };

                    if b0 <= self.scanline && self.scanline < b0 + height {
                        // Sprite is visible on this scanline, store it for later rendering
                        let mut entry = self.oam_scan[i];
                        entry[0] = b0;  // Y position
                        entry[1] = b1;  // X position
                        self.oam_scan[i] = entry;
                        self.oams_used_last = true;
                        proof {
                            assert(self@.oam_scan =~= old(self)@.exec_tcycle(old(memory)@).oam_scan);
                        }
                    } else {
                        // Sprite is not visible: the next dot does not read its remaining bytes
                        self.oams_used_last = false;
                    }
                } else {
                    if self.oams_used_last {
                        // Read the remaining two bytes of Object Attribute if the sprite was
                        // visible last dot
                        let b2 = memory.get_byte(OAM_START + self.tcycle * 2);
                        let b3 = memory.get_byte(OAM_START + self.tcycle * 2 + 1);

                        let mut entry = self.oam_scan[i];
                        entry[2] = b2;  // Tile index
                        entry[3] = b3;  // Attributes
                        self.oam_scan[i] = entry;
                        self.oams_index += 1;
                        proof {
                            assert(self@.oam_scan =~= old(self)@.exec_tcycle(old(memory)@).oam_scan);
                        }
                    } else {
                        // The sprite was not visible last dot, so we don't read
                        return ;
                    }
                }
            },
            PPUState::Drawing => {
                // Clock FIFOs
                self.bgw_fifo.step(memory);
                self.obj_fifo.step(memory);

                if let Some(pixel) = self.bgw_fifo.take_pixel() {
                    // If obj pixel is transparent => draw bg/w pixel
                    // If bg-to-obj priority is 1 and bg/w pixel is not color 0 => draw bg/w pixel
                    // Else draw obj pixel
                    // For now only draw bg
                    let y = self.scanline as usize;
                    let mut row = self.framebuffer[y];
                    row[self.dot as usize] = pixel;
                    self.framebuffer[y] = row;
                    self.dot += 1;
                    proof {
                        assert(self@.framebuffer =~= old(self)@.exec_tcycle(old(memory)@).framebuffer);
                    }

                    // Check if window should be drawn next
                    if lcdc.window_display_enable && !self.window_fetching_x
                        && self.window_fetching_y && self.dot >= memory.get_byte(WX) - 7 {
                        self.window_fetching_x = true;
                        self.bgw_fifo.start_window();
                    }
                }
            },
        }
    }

    /// This mode sets a new PPU mode and performs all the setup. Be careful, this resets most of
    /// the PPU state and should only be called when a new mode starts
    fn set_mode(&mut self, mode: PPUState, memory: &mut Memory)
        requires
            old(memory)@.wf(),
        ensures
            (final(self)@, final(memory)@) == old(self)@.set_mode(old(memory)@, mode),
            final(memory)@.wf(),
    {
        self.mode = mode;

        match mode {
            PPUState::OAMScan => {
                self.oams_index = 0;
                self.oams_used_last = false;
                memory.set_access(false, true);
            },
            PPUState::Drawing => {
                self.dot = 0;
                memory.set_access(false, false);
            },
            PPUState::HBlank => {
                memory.set_access(true, true);
                memory.trigger_interrupt(1);
            },
            PPUState::VBlank => {
                memory.set_access(true, true);
                memory.trigger_interrupt(0);
            },
        }
    }
}

proof fn lemma_tcycles_fit_prefix(p: PpuView, m: MemView, n: nat, k: nat)
    requires
        tcycles_fit(p, m, n),
        k <= n,
    ensures
        tcycles_fit(p, m, k),
    decreases n - k,
{
    if k < n {
        lemma_tcycles_fit_prefix(p, m, (n - 1) as nat, k);
    }
}


/// Helper struct to decode the LCDC register (0xFF40)
#[derive(Debug, Clone, Copy, PartialEq, Eq)]
pub struct LCDC {
    pub lcd_enable: bool,
    pub window_tile_map_select: bool,
    pub window_display_enable: bool,
    pub bgw_tile_data_select: bool,
    pub bg_tile_map_select: bool,
    pub obj_size: bool,
    pub obj_display_enable: bool,
    pub bgw_display: bool,
}

/// The LCDC fields of a register byte: bit 7 down to bit 0, in field order.
pub open spec fn lcdc_spec(byte: u8) -> LCDC {
    LCDC {
        lcd_enable: byte & 0x80 != 0,
        window_tile_map_select: byte & 0x40 != 0,
        window_display_enable: byte & 0x20 != 0,
        bgw_tile_data_select: byte & 0x10 != 0,
        bg_tile_map_select: byte & 0x08 != 0,
        obj_size: byte & 0x04 != 0,
        obj_display_enable: byte & 0x02 != 0,
        bgw_display: byte & 0x01 != 0,
    }
}

impl LCDC {
    pub fn from_byte(byte: u8) -> (r: Self)
        ensures
            r == lcdc_spec(byte),
    {
        Self {
            lcd_enable: byte & 0x80 != 0,
            window_tile_map_select: byte & 0x40 != 0,
            window_display_enable: byte & 0x20 != 0,
            bgw_tile_data_select: byte & 0x10 != 0,
            bg_tile_map_select: byte & 0x08 != 0,
            obj_size: byte & 0x04 != 0,
            obj_display_enable: byte & 0x02 != 0,
            bgw_display: byte & 0x01 != 0,
        }
    }
}

/// A dot keeps the PPU and memory well formed, and raises the frame counter and the background
/// tile column by at most one each.
pub proof fn lemma_step_tcycle(p: PpuView, m: MemView)
    requires
        p.wf(),
        m.wf(),
        p.tcycle_fits(m),
    ensures
        p.step_tcycle(m).0.wf(),
        p.step_tcycle(m).1.wf(),
        p.step_tcycle(m).0.frame <= p.frame + 1,
        p.step_tcycle(m).0.bgw.pos_x <= p.bgw.pos_x + 1,
{
}

/// `n` dots fit when the frame counter and the background tile column have room for `n` more
/// (and 32 columns of scroll).
pub proof fn lemma_tcycles_room(p: PpuView, m: MemView, n: nat)
    requires
        p.wf(),
        m.wf(),
        p.frame + n <= u64::MAX,
        p.bgw.pos_x + 32 + n <= 0xFFFF,
    ensures
        tcycles_fit(p, m, n),
        step_tcycles(p, m, n).0.wf(),
        step_tcycles(p, m, n).1.wf(),
        step_tcycles(p, m, n).0.frame <= p.frame + n,
        step_tcycles(p, m, n).0.bgw.pos_x <= p.bgw.pos_x + n,
    decreases n,
{
    if n > 0 {
        lemma_tcycles_room(p, m, (n - 1) as nat);
        let (p1, m1) = step_tcycles(p, m, (n - 1) as nat);
        assert(m1.peek(background_fifo::SCX) / 8 <= 31);
        lemma_step_tcycle(p1, m1);
    }
}


/// A line's pixels are all drawn well within its 456 dots: the drawing mode never reaches dot
/// 414 of a line.
pub proof fn law_drawing_ends_in_time(p: PpuView)
    requires
        p.wf(),
        p.mode == PPUState::Drawing,
    ensures
        p.tcycle <= 413,
{
}


/// Every state the PPU reaches from `PPU::new` by its steps (all of them well formed, as
/// `step_tcycle` keeps) has its counters in range, no pending delay, VBlank exactly on lines
/// 144-153, and on the visible lines the OAM scan exactly during the first 80 dots.
pub proof fn law_ppu_reachable_state(p: PpuView)
    requires
        p.wf(),
    ensures
        p.tcycle < 456,
        p.scanline <= 153,
        p.dot < 160,
        p.delay == 0,
        (p.mode == PPUState::VBlank) == (p.scanline >= 144),
        p.scanline < 144 ==> ((p.mode == PPUState::OAMScan) == (p.tcycle < 80)),
{
}

/// A dot advances the dot counter by one within the 456 dots of a line, the line counter at
/// the end of each line within the 154 lines of a frame, and the frame counter at the end of
/// each frame; it keeps the PPU and memory well formed. (No room in the tile column is needed
/// for this.)
pub proof fn lemma_step_tcycle_counters(p: PpuView, m: MemView)
    requires
        p.wf(),
        m.wf(),
    ensures
        p.step_tcycle(m).0.wf(),
        p.step_tcycle(m).1.wf(),
        p.step_tcycle(m).0.tcycle == (p.tcycle + 1) % 456,
        p.step_tcycle(m).0.scanline == if p.tcycle == 455 {
            (p.scanline + 1) % 154
        } else {
            p.scanline as int
        },
        p.step_tcycle(m).0.frame == if p.tcycle == 455 && p.scanline == 153 {
            (p.frame + 1) as u64
        } else {
            p.frame
        },
{
}


proof fn lemma_count_step(n: nat)
    requires
        n > 0,
    ensures
        n % 456 == ((n - 1) % 456 + 1) % 456,
        (n / 456) % 154 == if (n - 1) % 456 == 455 {
            (((n - 1) / 456) % 154 + 1) % 154
        } else {
            ((n - 1) / 456) % 154
        },
        n / 70224 == if (n - 1) % 456 == 455 && ((n - 1) / 456) % 154 == 153 {
            (n - 1) / 70224 + 1
        } else {
            (n - 1) / 70224
        },
{
    let k = (n - 1) as int;
    assert(k == 456 * (k / 456) + k % 456);
    assert(k / 456 == 154 * ((k / 456) / 154) + (k / 456) % 154);
    assert(k / 70224 == (k / 456) / 154) by {
        vstd::arithmetic::div_mod::lemma_div_denominator(k, 456, 154);
    }
    assert((k + 1) / 70224 == ((k + 1) / 456) / 154) by {
        vstd::arithmetic::div_mod::lemma_div_denominator(k + 1, 456, 154);
    }
    if k % 456 == 455 {
        assert((k + 1) / 456 == k / 456 + 1);
        assert((k + 1) % 456 == 0);
    } else {
        assert((k + 1) / 456 == k / 456);
        assert((k + 1) % 456 == k % 456 + 1);
    }
}

/// From power-on, after `n` dots the PPU is at dot `n mod 456` of line `(n / 456) mod 154` of
/// frame `n / 70224`, whatever memory holds; in particular after 70224 dots it starts the OAM
/// scan of line 0 of frame 1.
pub proof fn law_dot_line_frame_count(m: MemView, n: nat)
    requires
        m.wf(),
        n <= u64::MAX,
    ensures
        step_tcycles(PPU::initial(), m, n).0.tcycle == n % 456,
        step_tcycles(PPU::initial(), m, n).0.scanline == (n / 456) % 154,
        step_tcycles(PPU::initial(), m, n).0.frame == n / 70224,
        step_tcycles(PPU::initial(), m, n).0.wf(),
        step_tcycles(PPU::initial(), m, n).1.wf(),
        n % 70224 == 0 ==> step_tcycles(PPU::initial(), m, n).0.mode == PPUState::OAMScan,
    decreases n,
{
    if n == 0 {
        let p = PPU::initial();
        assert(p.oam_scan.len() == 10);
        assert(p.framebuffer.len() == 144);
    } else {
        law_dot_line_frame_count(m, (n - 1) as nat);
        let (p, m1) = step_tcycles(PPU::initial(), m, (n - 1) as nat);
        lemma_step_tcycle_counters(p, m1);
        lemma_count_step(n);
        if n % 70224 == 0 {
            let k = n as int;
            vstd::arithmetic::div_mod::lemma_div_denominator(k, 456, 154);
            assert(k == 70224 * (k / 70224));
            assert(k % 456 == 0);
            assert((k / 456) % 154 == 0);
        }
    }
}


/// Byte `j` of the OAM entry of sprite `k` (Y, X, tile, attributes).
pub open spec fn oam_byte(m: MemView, k: int, j: int) -> u8 {
    m.peek((OAM_START + 4 * k + j) as u16)
}

/// The OAM entry of sprite `k`.
pub open spec fn oam_entry(m: MemView, k: int) -> Seq<u8> {
    seq![oam_byte(m, k, 0), oam_byte(m, k, 1), oam_byte(m, k, 2), oam_byte(m, k, 3)]
}

/// Whether sprite `k` covers line `line`: its Y position is at most the line and the line lies
/// within the sprite's height (16 lines when LCDC bit 2 is set, 8 otherwise).
pub open spec fn sprite_visible(m: MemView, line: u8, k: int) -> bool {
    let y = oam_byte(m, k, 0);
    let height: int = if lcdc_spec(m.peek(LCDC_ADDRESS)).obj_size { 16 } else { 8 };
    y <= line && line < y + height
}

/// The OAM entries of the sprites among the first `n` that cover line `line`, in OAM order.
pub open spec fn visible_sprites(m: MemView, line: u8, n: nat) -> Seq<Seq<u8>>
    decreases n,
{
    if n == 0 {
        Seq::empty()
    } else {
        let v = visible_sprites(m, line, (n - 1) as nat);
        if sprite_visible(m, line, n - 1) {
            v.push(oam_entry(m, n - 1))
        } else {
            v
        }
    }
}

/// The smaller of ten and `n`.
pub open spec fn at_most_ten(n: int) -> int {
    if n < 10 {
        n
    } else {
        10
    }
}

/// The OAM scan after `t` of its dots: the selected entries are the visible sprites among the
/// first `t / 2` (at most ten), in OAM order; after an odd dot the flag tells whether the sprite
/// being read is visible, and its Y and X are already stored.
pub open spec fn scan_progress(q: PpuView, m: MemView, line: u8, t: nat) -> bool {
    let n = t / 2;
    let vs = visible_sprites(m, line, n);
    &&& q.oams_index == at_most_ten(vs.len() as int)
    &&& forall|i: int| 0 <= i < q.oams_index ==> #[trigger] q.oam_scan[i] == vs[i]
    &&& (t % 2 == 1 && q.oams_index < 10) ==> {
        &&& q.oams_used_last == sprite_visible(m, line, n as int)
        &&& q.oams_used_last ==> q.oam_scan[q.oams_index as int][0] == oam_byte(m, n as int, 0)
            && q.oam_scan[q.oams_index as int][1] == oam_byte(m, n as int, 1)
    }
}

proof fn lemma_visible_sprites_prefix(m: MemView, line: u8, n: nat)
    ensures
        visible_sprites(m, line, n).len() <= n,
        forall|i: int|
            0 <= i < visible_sprites(m, line, n).len() ==> #[trigger] visible_sprites(
                m,
                line,
                n + 1,
            )[i] == visible_sprites(m, line, n)[i],
        visible_sprites(m, line, n + 1).len() >= visible_sprites(m, line, n).len(),
    decreases n,
{
    if n > 0 {
        lemma_visible_sprites_prefix(m, line, (n - 1) as nat);
    }
}

proof fn lemma_scan_prefix(p: PpuView, m: MemView, t: nat)
    requires
        p.wf(),
        m.wf(),
        p.mode == PPUState::OAMScan,
        p.tcycle == 0,
        p.oams_index == 0,
        !p.oams_used_last,
        t <= 79,
    ensures
        step_tcycles(p, m, t).1 == m,
        step_tcycles(p, m, t).0.mode == PPUState::OAMScan,
        step_tcycles(p, m, t).0.tcycle == t,
        step_tcycles(p, m, t).0.scanline == p.scanline,
        step_tcycles(p, m, t).0.delay == 0,
        step_tcycles(p, m, t).0.oams_index <= 10,
        step_tcycles(p, m, t).0.oam_scan.len() == 10,
        forall|i: int|
            0 <= i < 10 ==> (#[trigger] step_tcycles(p, m, t).0.oam_scan[i]).len() == 4,
        scan_progress(step_tcycles(p, m, t).0, m, p.scanline, t),
    decreases t,
{
    if t > 0 {
        lemma_scan_prefix(p, m, (t - 1) as nat);
        let q = step_tcycles(p, m, (t - 1) as nat).0;
        let q1 = step_tcycles(p, m, t).0;
        lemma_scan_dot(q, m, p.scanline, (t - 1) as nat);
    }
}

proof fn lemma_scan_dot(q: PpuView, m: MemView, line: u8, t: nat)
    requires
        q.mode == PPUState::OAMScan,
        q.tcycle == t,
        t <= 79,
        q.scanline == line,
        q.delay == 0,
        q.oams_index <= 10,
        q.oam_scan.len() == 10,
        forall|i: int| 0 <= i < 10 ==> (#[trigger] q.oam_scan[i]).len() == 4,
        scan_progress(q, m, line, t),
    ensures
        q.exec_tcycle(m).oams_index <= 10,
        q.exec_tcycle(m).oam_scan.len() == 10,
        forall|i: int| 0 <= i < 10 ==> (#[trigger] q.exec_tcycle(m).oam_scan[i]).len() == 4,
        q.exec_tcycle(m).mode == q.mode,
        q.exec_tcycle(m).tcycle == q.tcycle,
        q.exec_tcycle(m).scanline == q.scanline,
        q.exec_tcycle(m).delay == q.delay,
        q.exec_tcycle(m).dot == q.dot,
        scan_progress(q.exec_tcycle(m), m, line, t + 1),
{
    let n = t / 2;
    let q1 = q.exec_tcycle(m);
    let vs = visible_sprites(m, line, n);
    lemma_visible_sprites_prefix(m, line, n);
    if t % 2 == 0 {
        assert((t + 1) / 2 == n);
        assert(forall|i: int| 0 <= i < q1.oams_index ==> q1.oam_scan[i] == q.oam_scan[i]);
    } else {
        assert((t + 1) / 2 == n + 1);
        let vs1 = visible_sprites(m, line, n + 1);
        if q.oams_index < 10 && q.oams_used_last {
            let i = q.oams_index as int;
            assert(q1.oam_scan[i] =~= oam_entry(m, n as int));
            assert(vs1 == vs.push(oam_entry(m, n as int)));
            assert forall|j: int| 0 <= j < q1.oams_index implies #[trigger] q1.oam_scan[j] == vs1[j] by {
                if j < i {
                    assert(q1.oam_scan[j] == q.oam_scan[j]);
                }
            }
        } else {
            assert forall|j: int| 0 <= j < q1.oams_index implies #[trigger] q1.oam_scan[j] == vs1[j] by {
                assert(q1.oam_scan[j] == q.oam_scan[j]);
                assert(vs1[j] == vs[j]);
            }
        }
    }
}

/// The OAM scan selects the sprites that cover the line: started at dot 0 of a visible line,
/// after its 80 dots the drawing mode has begun with the first ten (or fewer) sprites whose Y
/// range contains the line stored in OAM order, each as its four OAM bytes.
pub proof fn law_oam_scan_selects_visible_sprites(p: PpuView, m: MemView)
    requires
        p.wf(),
        m.wf(),
        p.mode == PPUState::OAMScan,
        p.tcycle == 0,
        p.oams_index == 0,
        !p.oams_used_last,
    ensures
        step_tcycles(p, m, 80).0.mode == PPUState::Drawing,
        step_tcycles(p, m, 80).0.oams_index == at_most_ten(
            visible_sprites(m, p.scanline, 40).len() as int,
        ),
        forall|i: int|
            0 <= i < step_tcycles(p, m, 80).0.oams_index ==> #[trigger] step_tcycles(
                p,
                m,
                80,
            ).0.oam_scan[i] == visible_sprites(m, p.scanline, 40)[i],
{
    lemma_scan_prefix(p, m, 79);
    let q = step_tcycles(p, m, 79).0;
    lemma_scan_dot(q, m, p.scanline, 79);
    let q1 = step_tcycles(p, m, 80).0;
    assert(q1.oam_scan == q.exec_tcycle(m).oam_scan);
    assert(q1.oams_index == q.exec_tcycle(m).oams_index);
}


/// A dot leaves the interrupt enable register as it was and only ever sets bits of the
/// interrupt flag register.
pub proof fn lemma_step_tcycle_interrupt_bits(p: PpuView, m: MemView)
    requires
        m.wf(),
    ensures
        p.step_tcycle(m).1.wf(),
        p.step_tcycle(m).1.data[INTERRUPT_ENABLE as int] == m.data[INTERRUPT_ENABLE as int],
        m.data[INTERRUPT_FLAG as int] & p.step_tcycle(m).1.data[INTERRUPT_FLAG as int]
            == m.data[INTERRUPT_FLAG as int],
{
    let x = m.data[INTERRUPT_FLAG as int];
    assert(x & x == x && x & (x | (1u8 << 0u8)) == x && x & (x | (1u8 << 1u8)) == x)
        by (bit_vector);
}

/// Over `n` dots the interrupt enable register stays as it was and the interrupt flag register
/// only gains bits.
pub proof fn lemma_tcycles_interrupt_bits(p: PpuView, m: MemView, n: nat)
    requires
        m.wf(),
    ensures
        step_tcycles(p, m, n).1.wf(),
        step_tcycles(p, m, n).1.data[INTERRUPT_ENABLE as int] == m.data[INTERRUPT_ENABLE as int],
        m.data[INTERRUPT_FLAG as int] & step_tcycles(p, m, n).1.data[INTERRUPT_FLAG as int]
            == m.data[INTERRUPT_FLAG as int],
    decreases n,
{
    if n == 0 {
        let a = m.data[INTERRUPT_FLAG as int];
        assert(a & a == a) by (bit_vector);
    } else {
        lemma_tcycles_interrupt_bits(p, m, (n - 1) as nat);
        let (p1, m1) = step_tcycles(p, m, (n - 1) as nat);
        lemma_step_tcycle_interrupt_bits(p1, m1);
        let a = m.data[INTERRUPT_FLAG as int];
        let b = m1.data[INTERRUPT_FLAG as int];
        let c = step_tcycles(p, m, n).1.data[INTERRUPT_FLAG as int];
        assert(a & c == a) by (bit_vector)
            requires
                a & b == a,
                b & c == b,
        ;
    }
}


/// Eight times the background tile column plus the fetcher's phase: a fetch of a tile row takes
/// at least eight dots, so this grows by at most one per dot.
pub open spec fn column_measure(f: FifoView) -> int {
    8 * f.pos_x + fetch_phase(f)
}

/// A dot raises the column measure of the background fetcher by at most one.
pub proof fn lemma_step_tcycle_column(p: PpuView, m: MemView)
    ensures
        column_measure(p.step_tcycle(m).0.bgw) <= column_measure(p.bgw) + 1,
{
}

/// `n` dots raise the column measure by at most `n`, and the frame counter (when there is room)
/// by at most `n`.
pub proof fn lemma_tcycles_column(p: PpuView, m: MemView, n: nat)
    ensures
        column_measure(step_tcycles(p, m, n).0.bgw) <= column_measure(p.bgw) + n,
    decreases n,
{
    if n > 0 {
        lemma_tcycles_column(p, m, (n - 1) as nat);
        let (p1, m1) = step_tcycles(p, m, (n - 1) as nat);
        lemma_step_tcycle_column(p1, m1);
    }
}


/// The fetcher's phase lies between 0 and 7.
pub proof fn lemma_fetch_phase_nonnegative(f: FifoView)
    ensures
        0 <= fetch_phase(f) <= 7,
{
}

/// Dots advance the dot counter one by one within the 456 dots of a line, wrapping into the
/// next line; in particular a machine cycle (`step_mcycle`, four dots) advances it by four.
pub proof fn law_dots_advance_dot_counter(p: PpuView, m: MemView, n: nat)
    requires
        p.wf(),
        m.wf(),
    ensures
        step_tcycles(p, m, n).0.tcycle == (p.tcycle + n) % 456,
        step_tcycles(p, m, n).0.wf(),
        step_tcycles(p, m, n).1.wf(),
    decreases n,
{
    if n > 0 {
        law_dots_advance_dot_counter(p, m, (n - 1) as nat);
        let (p1, m1) = step_tcycles(p, m, (n - 1) as nat);
        lemma_step_tcycle_counters(p1, m1);
        assert(((p.tcycle + n - 1) % 456 + 1) % 456 == (p.tcycle + n) % 456) by {
            vstd::arithmetic::div_mod::lemma_add_mod_noop(p.tcycle + n - 1, 1, 456);
            vstd::arithmetic::div_mod::lemma_mod_twice(1, 456);
        }
    }
}


/// The blanking interrupts: at the end of line 143 the PPU enters VBlank on line 144 and
/// requests the V-Blank interrupt (bit 0 of IF); when a line's drawing ends and HBlank begins it
/// requests the LCD STAT interrupt (bit 1). The other request bits are kept.
pub proof fn law_blanking_interrupts(p: PpuView, m: MemView)
    requires
        p.wf(),
        m.wf(),
    ensures
        ({
            let (q, m2) = p.step_tcycle(m);
            &&& (p.scanline == 143 && p.tcycle == 455) ==> q.mode == PPUState::VBlank && q.scanline
                == 144 && m2.peek(INTERRUPT_FLAG) == m.peek(INTERRUPT_FLAG) | 0x01
            &&& (p.mode == PPUState::Drawing && q.mode == PPUState::HBlank) ==> m2.peek(
                INTERRUPT_FLAG,
            ) == m.peek(INTERRUPT_FLAG) | 0x02
        }),
{
    assert(1u8 << 0u8 == 0x01 && 1u8 << 1u8 == 0x02) by (bit_vector);
}

} // verus!
