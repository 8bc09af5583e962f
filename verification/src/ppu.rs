use vstd::prelude::*;

verus! {

/// 8 KiB of video RAM.
pub const VRAM_SIZE: usize = 1024 * 8;
/// FE00-FE9F (160 bytes)
pub const OAM_SIZE: usize = 0xA0;
pub const SCREEN_HEIGHT: usize = 144;
pub const SCREEN_WIDTH: usize = 160;
/// Pixels in one 8x8 tile.
pub const TILE_SIZE: usize = 8 * 8;
/// Tiles decoded from 0x8000-0x97FF.
pub const TILE_COUNT: usize = 384;
/// 0x9800 - 0x8000
pub const BG_MAP0_OFFSET: usize = 0x1800;
/// 0x9C00 - 0x8000
pub const BG_MAP1_OFFSET: usize = 0x1C00;

pub const CYCLES_OAM_SCAN: u32 = 80;
pub const CYCLES_TRANSFER: u32 = 172;
pub const CYCLES_HBLANK: u32 = 204;
pub const CYCLES_PER_SCANLINE: u32 = 456;
pub const VBLANK_START_LINE: u8 = 144;
pub const VBLANK_END_LINE: u8 = 153;

#[derive(Copy, Clone, Debug, PartialEq, Eq, Structural)]
pub enum Mode {
    HBlank,
    VBlank,
    OamScan,
    Transfer,
}

/// The mode number reported in STAT bits 0-1.
pub open spec fn mode_number(m: Mode) -> u8 {
    match m {
        Mode::HBlank => 0,
        Mode::VBlank => 1,
        Mode::OamScan => 2,
        Mode::Transfer => 3,
    }
}

/// Cycles the PPU spends in a mode before it moves on.
pub open spec fn mode_length(m: Mode) -> u32 {
    match m {
        Mode::OamScan => CYCLES_OAM_SCAN,
        Mode::Transfer => CYCLES_TRANSFER,
        Mode::HBlank => CYCLES_HBLANK,
        Mode::VBlank => CYCLES_PER_SCANLINE,
    }
}

/// The 2-bit color number of pixel `x` (0 = leftmost) of a tile row stored as the
/// bytes `b0` (low bits) and `b1` (high bits).
pub open spec fn pixel_of(b0: u8, b1: u8, x: u8) -> u8 {
    ((b0 >> ((7 - x) as u8)) & 1u8) | (((b1 >> ((7 - x) as u8)) & 1u8) << 1u8)
}

/// Color number of pixel `p` (row-major, 0..64) of tile `tile` as stored in VRAM
/// (16 bytes per tile from 0x8000).
pub open spec fn tile_pixel(vram: Seq<u8>, tile: int, p: int) -> u8 {
    let row = p / 8;
    let x = p % 8;
    pixel_of(vram[tile * 16 + row * 2], vram[tile * 16 + row * 2 + 1], x as u8)
}

/// The shade that `palette` gives to color number `color_id`.
pub open spec fn palette_shade(palette: u8, color_id: u8) -> u8 {
    (palette >> (((color_id & 0x03) * 2) as u8)) & 0x03
}

/// The PPU as plain values.
pub ghost struct PpuState {
    /// 144 rows of 160 shades.
    pub screen: Seq<Seq<u8>>,
    pub oam: Seq<u8>,
    pub vram: Seq<u8>,
    /// FF40
    pub lcdc: u8,
    /// FF41
    pub stat: u8,
    /// FF42
    pub scy: u8,
    /// FF43
    pub scx: u8,
    /// FF44
    pub ly: u8,
    /// FF45
    pub lyc: u8,
    /// FF47
    pub bgp: u8,
    /// FF48
    pub obp0: u8,
    /// FF49
    pub obp1: u8,
    /// FF4A
    pub wy: u8,
    /// FF4B
    pub wx: u8,
    /// FF46
    pub dma: u8,
    pub mode: Mode,
    pub mode_cycles: u32,
}

impl PpuState {
    /// Sizes of the memories, and the timing invariant: the line counter stays within
    /// 0..=153, below 144 outside VBlank and at 144 or more inside it, and the cycle
    /// counter stays below the current mode's length.
    pub open spec fn wf(self) -> bool {
        &&& self.sizes_ok()
        &&& self.lines_ok()
        &&& self.shades_ok()
        &&& self.mode_cycles < mode_length(self.mode)
    }

    /// Every pixel on the screen holds a shade, 0 to 3.
    pub open spec fn shades_ok(self) -> bool {
        forall|y: int, x: int|
            0 <= y < SCREEN_HEIGHT && 0 <= x < SCREEN_WIDTH ==> #[trigger] self.screen[y][x] <= 3
    }

    pub open spec fn lcd_enabled(self) -> bool {
        self.lcdc & 0x80 != 0
    }

    pub open spec fn read_vram_spec(self, addr: int) -> u8 {
        if self.mode == Mode::Transfer {
            0xFF
        } else if 0x8000 <= addr <= 0x9FFF {
            self.vram[addr - 0x8000]
        } else {
            0xFF
        }
    }

    pub open spec fn write_vram_spec(self, addr: int, value: u8) -> PpuState {
        if self.mode == Mode::Transfer {
            self
        } else {
            PpuState { vram: self.vram.update(addr - 0x8000, value), ..self }
        }
    }

    pub open spec fn oam_blocked(self) -> bool {
        self.mode == Mode::OamScan || self.mode == Mode::Transfer
    }

    pub open spec fn read_oam_spec(self, addr: int) -> u8 {
        if self.oam_blocked() {
            0xFF
        } else {
            self.oam[addr]
        }
    }

    pub open spec fn write_oam_spec(self, addr: int, value: u8) -> PpuState {
        if self.oam_blocked() {
            self
        } else {
            PpuState { oam: self.oam.update(addr, value), ..self }
        }
    }

    pub open spec fn dma_write_oam_spec(self, addr: int, value: u8) -> PpuState {
        if 0 <= addr < OAM_SIZE {
            PpuState { oam: self.oam.update(addr, value), ..self }
        } else {
            self
        }
    }

    /// STAT as read: interrupt enables (bits 3-6), LY == LYC (bit 2), mode (bits 0-1).
    pub open spec fn stat_read(self) -> u8 {
        (self.stat & 0b0111_1000) | (if self.ly == self.lyc { 0b100u8 } else { 0u8 })
            | mode_number(self.mode)
    }

    pub open spec fn read_reg_spec(self, addr: u16) -> u8 {
        if addr == 0xFF40 {
            self.lcdc
        } else if addr == 0xFF41 {
            self.stat_read()
        } else if addr == 0xFF42 {
            self.scy
        } else if addr == 0xFF43 {
            self.scx
        } else if addr == 0xFF44 {
            self.ly
        } else if addr == 0xFF45 {
            self.lyc
        } else if addr == 0xFF46 {
            self.dma
        } else if addr == 0xFF47 {
            self.bgp
        } else if addr == 0xFF48 {
            self.obp0
        } else if addr == 0xFF49 {
            self.obp1
        } else if addr == 0xFF4A {
            self.wy
        } else if addr == 0xFF4B {
            self.wx
        } else {
            0xFF
        }
    }

    /// A register write. Turning the LCD off resets LY to 0 in HBlank; turning it on
    /// restarts at line 0 in OAM scan; LY is read-only; STAT keeps bits 0-2.
    pub open spec fn write_reg_spec(self, addr: u16, value: u8) -> PpuState {
        if addr == 0xFF40 {
            let s = PpuState { lcdc: value, ..self };
            if self.lcd_enabled() && !s.lcd_enabled() {
                PpuState { ly: 0, mode: Mode::HBlank, mode_cycles: 0, ..s }
            } else if !self.lcd_enabled() && s.lcd_enabled() {
                PpuState { ly: 0, mode: Mode::OamScan, mode_cycles: 0, ..s }
            } else {
                s
            }
        } else if addr == 0xFF41 {
            PpuState { stat: (self.stat & 0b0000_0111) | (value & 0b0111_1000), ..self }
        } else if addr == 0xFF42 {
            PpuState { scy: value, ..self }
        } else if addr == 0xFF43 {
            PpuState { scx: value, ..self }
        } else if addr == 0xFF45 {
            PpuState { lyc: value, ..self }
        } else if addr == 0xFF46 {
            PpuState { dma: value, ..self }
        } else if addr == 0xFF47 {
            PpuState { bgp: value, ..self }
        } else if addr == 0xFF48 {
            PpuState { obp0: value, ..self }
        } else if addr == 0xFF49 {
            PpuState { obp1: value, ..self }
        } else if addr == 0xFF4A {
            PpuState { wy: value, ..self }
        } else if addr == 0xFF4B {
            PpuState { wx: value, ..self }
        } else {
            self
        }
    }

    /// The line counter and mode agree: LY within 0..=153, at 144 or more exactly in VBlank.
    pub open spec fn lines_ok(self) -> bool {
        &&& self.ly <= VBLANK_END_LINE
        &&& (self.mode == Mode::VBlank) == (self.ly >= VBLANK_START_LINE)
    }

    pub open spec fn sizes_ok(self) -> bool {
        &&& self.screen.len() == SCREEN_HEIGHT
        &&& forall|y: int| 0 <= y < SCREEN_HEIGHT ==> (#[trigger] self.screen[y]).len() == SCREEN_WIDTH
        &&& self.oam.len() == OAM_SIZE
        &&& self.vram.len() == VRAM_SIZE
    }

    pub open spec fn hblank_stat_enabled(self) -> bool {
        self.stat & 0x08 != 0
    }

    pub open spec fn vblank_stat_enabled(self) -> bool {
        self.stat & 0x10 != 0
    }

    pub open spec fn oam_stat_enabled(self) -> bool {
        self.stat & 0x20 != 0
    }

    pub open spec fn lyc_stat_enabled(self) -> bool {
        self.stat & 0x40 != 0
    }

    pub open spec fn bg_enabled(self) -> bool {
        self.lcdc & 0x01 != 0
    }

    pub open spec fn obj_enabled(self) -> bool {
        self.lcdc & 0x02 != 0
    }

    pub open spec fn obj_height(self) -> u8 {
        if self.lcdc & 0x04 != 0 {
            16
        } else {
            8
        }
    }

    pub open spec fn bg_map_base(self) -> int {
        if self.lcdc & 0x08 != 0 {
            BG_MAP1_OFFSET as int
        } else {
            BG_MAP0_OFFSET as int
        }
    }

    pub open spec fn window_enabled(self) -> bool {
        self.lcdc & 0x20 != 0
    }

    pub open spec fn window_map_base(self) -> int {
        if self.lcdc & 0x40 != 0 {
            BG_MAP1_OFFSET as int
        } else {
            BG_MAP0_OFFSET as int
        }
    }

    /// The cached tile a background or window tile number refers to: with LCDC bit 4
    /// set, numbers 0-255 from 0x8000; otherwise signed numbers from 0x9000, so that
    /// 0-127 are tiles 256-383 and 128-255 are tiles 128-255.
    pub open spec fn tile_index_of(self, tile_id: u8) -> int {
        if self.lcdc & 0x10 != 0 {
            tile_id as int
        } else if tile_id < 128 {
            256 + tile_id
        } else {
            tile_id as int
        }
    }

    /// Background color number at screen position (`x`, `y`), scrolled by SCX/SCY and
    /// wrapping around the 256x256 map; 0 when the background is disabled.
    pub open spec fn bg_color_id(self, y: int, x: int) -> u8 {
        if !self.bg_enabled() {
            0
        } else {
            let sy = (self.scy + y) % 256;
            let sx = (self.scx + x) % 256;
            let tile_id = self.vram[self.bg_map_base() + (sy / 8) * 32 + sx / 8];
            tile_pixel(self.vram, self.tile_index_of(tile_id), (sy % 8) * 8 + sx % 8)
        }
    }

    /// Whether the window covers screen position (`x`, `y`): it is enabled, `y` is at
    /// or below WY and `x` at or right of WX - 7.
    pub open spec fn window_covers(self, y: int, x: int) -> bool {
        &&& self.window_enabled()
        &&& y >= self.wy
        &&& x >= self.wx - 7
    }

    /// Window color number at a screen position that the window covers.
    pub open spec fn window_color_id(self, y: int, x: int) -> u8 {
        let wy = y - self.wy;
        let wx = x - (self.wx - 7);
        let tile_id = self.vram[self.window_map_base() + (wy / 8) * 32 + wx / 8];
        tile_pixel(self.vram, self.tile_index_of(tile_id), (wy % 8) * 8 + wx % 8)
    }

    /// Color number of the background layer (window over background) at a position.
    pub open spec fn layer_color_id(self, y: int, x: int) -> u8 {
        if self.window_covers(y, x) {
            self.window_color_id(y, x)
        } else {
            self.bg_color_id(y, x)
        }
    }

    /// Sprite `i` of OAM as (x, y, tile number, attributes, index), screen coordinates.
    pub open spec fn sprite(self, i: int) -> (i16, i16, u8, u8, usize) {
        (
            (self.oam[4 * i + 1] - 8) as i16,
            (self.oam[4 * i] - 16) as i16,
            self.oam[4 * i + 2],
            self.oam[4 * i + 3],
            i as usize,
        )
    }

    pub open spec fn sprite_on_line(self, i: int, y: int) -> bool {
        let spr = self.sprite(i);
        y >= spr.1 && y < spr.1 + self.obj_height()
    }

    /// The sprites on line `y` among OAM entries 0..n, in OAM order, at most ten.
    pub open spec fn visible_sprites(self, y: int, n: int) -> Seq<(i16, i16, u8, u8, usize)>
        decreases n,
    {
        if n <= 0 {
            Seq::empty()
        } else {
            let prev = self.visible_sprites(y, n - 1);
            if prev.len() < 10 && self.sprite_on_line(n - 1, y) {
                prev.push(self.sprite(n - 1))
            } else {
                prev
            }
        }
    }

    /// The shade a sprite gives to screen position (`x`, `y`), if it covers it with a
    /// non-transparent pixel that is not hidden behind background color `bg_id`.
    pub open spec fn sprite_shade(self, spr: (i16, i16, u8, u8, usize), y: int, x: int, bg_id: u8) -> Option<u8> {
        let (sx, sy, tile_id, attrs) = (spr.0 as int, spr.1 as int, spr.2, spr.3);
        let h = self.obj_height() as int;
        if x < sx || x >= sx + 8 {
            None
        } else {
            let row0 = y - sy;
            let col0 = x - sx;
            let row = if attrs & 0x40 != 0 { h - 1 - row0 } else { row0 };
            let col = if attrs & 0x20 != 0 { 7 - col0 } else { col0 };
            let tile_index = if h == 16 {
                (tile_id & 0xFE) + (if row >= 8 { 1int } else { 0int })
            } else {
                tile_id as int
            };
            let color_id = tile_pixel(self.vram, tile_index, (row % 8) * 8 + col);
            if color_id == 0 {
                None
            } else if attrs & 0x80 != 0 && bg_id != 0 {
                None
            } else {
                let palette = if attrs & 0x10 != 0 { self.obp1 } else { self.obp0 };
                Some(palette_shade(palette, color_id))
            }
        }
    }

    /// The winning sprite pixel among the first `k` sprites of `list`: the one with the
    /// smallest x, then the smallest OAM index, as (shade, x, index).
    pub open spec fn best_sprite(
        self,
        list: Seq<(i16, i16, u8, u8, usize)>,
        y: int,
        x: int,
        bg_id: u8,
        k: int,
    ) -> Option<(u8, i16, usize)>
        decreases k,
    {
        if k <= 0 {
            None
        } else {
            let prev = self.best_sprite(list, y, x, bg_id, k - 1);
            let spr = list[k - 1];
            match self.sprite_shade(spr, y, x, bg_id) {
                None => prev,
                Some(shade) => match prev {
                    None => Some((shade, spr.0, spr.4)),
                    Some(b) => if spr.0 < b.1 || (spr.0 == b.1 && spr.4 < b.2) {
                        Some((shade, spr.0, spr.4))
                    } else {
                        prev
                    },
                },
            }
        }
    }

    /// The shade shown at screen position (`x`, `y`): the winning sprite pixel when
    /// sprites are enabled and one covers it, else the background layer's shade.
    pub open spec fn pixel_shade(self, y: int, x: int) -> u8 {
        let bg_id = self.layer_color_id(y, x);
        let list = self.visible_sprites(y, 40);
        let best = self.best_sprite(list, y, x, bg_id, list.len() as int);
        if self.obj_enabled() && best is Some {
            best.unwrap().0
        } else {
            palette_shade(self.bgp, bg_id)
        }
    }

    /// Line `y` as drawn.
    pub open spec fn render_line(self, y: int) -> Seq<u8> {
        Seq::new(SCREEN_WIDTH as nat, |x: int| self.pixel_shade(y, x))
    }

    /// Leaving the current mode: OAM scan goes to transfer; transfer draws line LY and
    /// goes to HBlank; HBlank advances LY and goes to VBlank at line 144 (requesting the
    /// VBlank interrupt) or to OAM scan; VBlank advances LY and wraps to line 0 in OAM
    /// scan after line 153. The second flag is the STAT interrupt of the mode entered,
    /// when it is enabled.
    pub open spec fn advance_spec(self) -> (PpuState, bool, bool) {
        match self.mode {
            Mode::OamScan => (PpuState { mode: Mode::Transfer, ..self }, false, false),
            Mode::Transfer => {
                let s = if self.ly < VBLANK_START_LINE {
                    PpuState {
                        screen: self.screen.update(self.ly as int, self.render_line(self.ly as int)),
                        ..self
                    }
                } else {
                    self
                };
                (PpuState { mode: Mode::HBlank, ..s }, false, self.hblank_stat_enabled())
            },
            Mode::HBlank => {
                let ly = ((self.ly + 1) % 256) as u8;
                if ly >= VBLANK_START_LINE {
                    (PpuState { ly, mode: Mode::VBlank, ..self }, true, self.vblank_stat_enabled())
                } else {
                    (PpuState { ly, mode: Mode::OamScan, ..self }, false, self.oam_stat_enabled())
                }
            },
            Mode::VBlank => {
                let ly = ((self.ly + 1) % 256) as u8;
                if ly > VBLANK_END_LINE {
                    (PpuState { ly: 0, mode: Mode::OamScan, ..self }, false, self.oam_stat_enabled())
                } else {
                    (PpuState { ly, ..self }, false, false)
                }
            },
        }
    }

    /// Whether running the mode changes (as `run_spec` does) enters mode `m` from
    /// another mode at some point. Entering VBlank is moving from line 143 to line 144.
    pub open spec fn run_enters(self, m: Mode) -> bool
        decreases self.mode_cycles,
    {
        let th = mode_length(self.mode);
        if self.mode_cycles < th {
            false
        } else {
            let s1 = PpuState { mode_cycles: (self.mode_cycles - th) as u32, ..self };
            let s2 = s1.advance_spec().0;
            (s2.mode == m && s1.mode != m) || s2.run_enters(m)
        }
    }

    /// Leaves modes for as long as the cycle counter covers the current mode's length.
    pub open spec fn run_spec(self) -> (PpuState, bool, bool)
        decreases self.mode_cycles,
    {
        let th = mode_length(self.mode);
        if self.mode_cycles < th {
            (self, false, false)
        } else {
            let s1 = PpuState { mode_cycles: (self.mode_cycles - th) as u32, ..self };
            let (s2, v, st) = s1.advance_spec();
            let (s3, v2, st2) = s2.run_spec();
            (s3, v || v2, st || st2)
        }
    }

    /// Advances the PPU by `cycles` (nothing happens while the LCD is off) and says
    /// whether the VBlank and STAT interrupts are requested; STAT is also requested when
    /// LY == LYC at the end and that source is enabled.
    pub open spec fn step_spec(self, cycles: u32) -> (PpuState, bool, bool) {
        if !self.lcd_enabled() {
            (self, false, false)
        } else {
            let sum = self.mode_cycles + cycles;
            let s0 = PpuState {
                mode_cycles: if sum > u32::MAX { u32::MAX } else { sum as u32 },
                ..self
            };
            let (s1, v, st) = s0.run_spec();
            (s1, v, st || (s1.lyc_stat_enabled() && s1.ly == s1.lyc))
        }
    }

}

type Tile = [u8; TILE_SIZE];

pub struct Ppu {
    screen: [[u8; SCREEN_WIDTH]; SCREEN_HEIGHT],
    oam: [u8; OAM_SIZE],
    vram: [u8; VRAM_SIZE],
    /// Decoded tiles of 0x8000-0x97FF, kept equal to what VRAM holds.
    tile_data: [Tile; TILE_COUNT],
    lcdc: u8,
    stat: u8,
    scy: u8,
    scx: u8,
    ly: u8,
    lyc: u8,
    bgp: u8,
    obp0: u8,
    obp1: u8,
    wy: u8,
    wx: u8,
    dma: u8,
    mode: Mode,
    mode_cycles: u32,
}

impl View for Ppu {
    type V = PpuState;

    closed spec fn view(&self) -> PpuState {
        PpuState {
            screen: Seq::new(SCREEN_HEIGHT as nat, |y: int| self.screen@[y]@),
            oam: self.oam@,
            vram: self.vram@,
            lcdc: self.lcdc,
            stat: self.stat,
            scy: self.scy,
            scx: self.scx,
            ly: self.ly,
            lyc: self.lyc,
            bgp: self.bgp,
            obp0: self.obp0,
            obp1: self.obp1,
            wy: self.wy,
            wx: self.wx,
            dma: self.dma,
            mode: self.mode,
            mode_cycles: self.mode_cycles,
        }
    }
}

impl Ppu {
    /// The decoded tile cache agrees with VRAM.
    closed spec fn tiles_match(self) -> bool {
        forall|t: int, p: int|
            0 <= t < TILE_COUNT && 0 <= p < TILE_SIZE ==> #[trigger] self.tile_data@[t]@[p]
                == tile_pixel(self.vram@, t, p)
    }

    /// Well-formed: the plain-value invariant holds and the tile cache agrees with VRAM.
    pub closed spec fn wf(self) -> bool {
        &&& self@.wf()
        &&& self.tiles_match()
    }

    /// A well-formed PPU has a well-formed model.
    pub proof fn lemma_wf_view(&self)
        requires
            self.wf(),
        ensures
            self@.wf(),
    {
    }

    /// The state right after power-on.
    pub open spec fn new_state() -> PpuState {
        PpuState {
            screen: Seq::new(
                SCREEN_HEIGHT as nat,
                |y: int| Seq::new(SCREEN_WIDTH as nat, |x: int| 0u8),
            ),
            oam: Seq::new(OAM_SIZE as nat, |i: int| 0u8),
            vram: Seq::new(VRAM_SIZE as nat, |i: int| 0u8),
            lcdc: 0x91,
            stat: 0x85,
            scy: 0,
            scx: 0,
            ly: 0,
            lyc: 0,
            bgp: 0xFC,
            obp0: 0xFF,
            obp1: 0xFF,
            wy: 0,
            wx: 0,
            dma: 0xFF,
            mode: Mode::OamScan,
            mode_cycles: 0,
        }
    }

    pub fn new() -> (r: Self)
        ensures
            r.wf(),
            r@.wf(),
            r@ == Self::new_state(),
    {
        let mut this = Self {
            screen: [[0; SCREEN_WIDTH]; SCREEN_HEIGHT],
            oam: [0; OAM_SIZE],
            vram: [0; VRAM_SIZE],
            tile_data: [[0; TILE_SIZE]; TILE_COUNT],
            lcdc: 0x91,
            stat: 0x85,
            scy: 0,
            scx: 0,
            ly: 0,
            lyc: 0,
            bgp: 0xFC,
            obp0: 0xFF,
            obp1: 0xFF,
            wy: 0,
            wx: 0,
            dma: 0xFF,
            mode: Mode::OamScan,
            mode_cycles: 0,
        };
        // Ensure decoded tile cache matches initial VRAM contents.
        this.decode_all_tiles();
        assert(this@.screen =~= Seq::new(
            SCREEN_HEIGHT as nat,
            |y: int| Seq::new(SCREEN_WIDTH as nat, |x: int| 0u8),
        )) by {
            assert forall|y: int| 0 <= y < SCREEN_HEIGHT implies #[trigger] this@.screen[y]
                =~= Seq::new(SCREEN_WIDTH as nat, |x: int| 0u8) by {}
        }
        assert(this@.oam =~= Seq::new(OAM_SIZE as nat, |i: int| 0u8));
        assert(this@.vram =~= Seq::new(VRAM_SIZE as nat, |i: int| 0u8));
        this
    }

    pub fn get_display(&self) -> (r: &[[u8; 160]; 144])
        ensures
            forall|y: int, x: int|
                0 <= y < SCREEN_HEIGHT && 0 <= x < SCREEN_WIDTH ==> #[trigger] r@[y]@[x]
                    == self@.screen[y][x],
            self.wf() ==> forall|y: int, x: int|
                0 <= y < SCREEN_HEIGHT && 0 <= x < SCREEN_WIDTH ==> #[trigger] r@[y]@[x] <= 3,
    {
        let r = &self.screen;
        proof {
            if self.wf() {
                assert forall|y: int, x: int|
                    0 <= y < SCREEN_HEIGHT && 0 <= x < SCREEN_WIDTH implies #[trigger] r@[y]@[x] <= 3 by {
                    assert(self@.screen[y][x] <= 3);
                }
            }
        }
        r
    }

    pub fn read_vram(&self, addr: usize) -> (r: u8)
        requires
            self.wf(),
        ensures
            r == self@.read_vram_spec(addr as int),
    {
        if self.mode == Mode::Transfer {
            // During pixel transfer, VRAM is inaccessible to the CPU
            return 0xFF;
        }
        if 0x8000 <= addr && addr <= 0x9FFF {
            self.vram[addr - 0x8000]
        } else {
            0xFF
        }
    }

    pub fn write_vram(&mut self, addr: usize, value: u8)
        requires
            old(self).wf(),
            old(self)@.mode == Mode::Transfer || 0x8000 <= addr <= 0x9FFF,
        ensures
            final(self).wf(),
            final(self)@ == old(self)@.write_vram_spec(addr as int, value),
    {
        if self.mode == Mode::Transfer {
            // During pixel transfer, VRAM is inaccessible to the CPU
            return;
        }
        if addr <= 0x97FF {
            self.vram[addr - 0x8000] = value;
            self.update_tile_from_vram(addr, Ghost(old(self).vram@));
        } else {
            self.vram[addr - 0x8000] = value;
            assert(forall|t: int, p: int|
                0 <= t < TILE_COUNT && 0 <= p < TILE_SIZE ==> tile_pixel(self.vram@, t, p)
                    == tile_pixel(old(self).vram@, t, p)) by {
                assert forall|t: int, p: int|
                    0 <= t < TILE_COUNT && 0 <= p < TILE_SIZE implies tile_pixel(self.vram@, t, p)
                    == tile_pixel(old(self).vram@, t, p) by {
                    assert(t * 16 + (p / 8) * 2 + 1 < 0x1800) by (nonlinear_arith)
                        requires
                            0 <= t < 384,
                            0 <= p < 64,
                    ;
                }
            }
        }
        assert(self@.screen =~= old(self)@.screen);
    }

    pub fn read_oam(&self, addr: usize) -> (r: u8)
        requires
            self.wf(),
            self@.oam_blocked() || addr < OAM_SIZE,
        ensures
            r == self@.read_oam_spec(addr as int),
    {
        if self.mode == Mode::OamScan || self.mode == Mode::Transfer {
            // During OAM scan and pixel transfer, OAM is inaccessible to the CPU
            return 0xFF;
        }
        self.oam[addr]
    }

    pub fn write_oam(&mut self, addr: usize, value: u8)
        requires
            old(self).wf(),
            old(self)@.oam_blocked() || addr < OAM_SIZE,
        ensures
            final(self).wf(),
            final(self)@ == old(self)@.write_oam_spec(addr as int, value),
    {
        if self.mode == Mode::OamScan || self.mode == Mode::Transfer {
            // During OAM scan and pixel transfer, OAM is inaccessible to the CPU
            return;
        }
        self.oam[addr] = value;
        assert(self@.screen =~= old(self)@.screen);
    }

    pub fn dma_write_oam(&mut self, addr: usize, value: u8)
        requires
            old(self).wf(),
        ensures
            final(self).wf(),
            final(self)@ == old(self)@.dma_write_oam_spec(addr as int, value),
    {
        if addr < OAM_SIZE {
            self.oam[addr] = value;
        }
        assert(self@.screen =~= old(self)@.screen);
    }

    fn mode_bits(&self) -> (r: u8)
        ensures
            r == mode_number(self.mode),
    {
        match self.mode {
            Mode::HBlank => 0,
            Mode::VBlank => 1,
            Mode::OamScan => 2,
            Mode::Transfer => 3,
        }
    }

    pub fn read_reg(&self, addr: u16) -> (r: u8)
        ensures
            r == self@.read_reg_spec(addr),
    {
        match addr {
            0xFF40 => self.lcdc,
            0xFF41 => {
                // Lower 2 bits = mode, bit2 = coincidence.
                let mode_bits = self.mode_bits();
                let coincidence_bit = if self.ly == self.lyc { 0b100 } else { 0 };
                (self.stat & 0b0111_1000) | coincidence_bit | mode_bits
            },
            0xFF42 => self.scy,
            0xFF43 => self.scx,
            0xFF44 => self.ly,
            0xFF45 => self.lyc,
            0xFF46 => self.dma,
            0xFF47 => self.bgp,
            0xFF48 => self.obp0,
            0xFF49 => self.obp1,
            0xFF4A => self.wy,
            0xFF4B => self.wx,
            _ => 0xFF,
        }
    }

    pub fn write_reg(&mut self, addr: u16, value: u8)
        requires
            old(self).wf(),
        ensures
            final(self).wf(),
            final(self)@ == old(self)@.write_reg_spec(addr, value),
    {
        match addr {
            0xFF40 => {
                let old_enabled = self.lcd_enabled();
                self.lcdc = value;
                let new_enabled = self.lcd_enabled();
                // LCD OFF => reset LY/mode timing; LCD ON => start at line 0 in OAM scan.
                if old_enabled && !new_enabled {
                    self.ly = 0;
                    self.mode = Mode::HBlank;
                    self.mode_cycles = 0;
                } else if !old_enabled && new_enabled {
                    self.ly = 0;
                    self.mode = Mode::OamScan;
                    self.mode_cycles = 0;
                }
            },
            0xFF41 => {
                // Bits 0-2 are status (mode + coincidence); bits 3-6 are interrupt enables.
                self.stat = (self.stat & 0b0000_0111) | (value & 0b0111_1000);
            },
            0xFF42 => self.scy = value,
            0xFF43 => self.scx = value,
            0xFF44 => {
                // LY is read-only
            },
            0xFF45 => self.lyc = value,
            0xFF46 => {
                // Latch request; the copy is performed by the memory bus.
                self.dma = value;
            },
            0xFF47 => self.bgp = value,
            0xFF48 => self.obp0 = value,
            0xFF49 => self.obp1 = value,
            0xFF4A => self.wy = value,
            0xFF4B => self.wx = value,
            _ => {},
        }
    }

    fn mode_threshold(mode: Mode) -> (r: u32)
        ensures
            r == mode_length(mode),
    {
        match mode {
            Mode::OamScan => CYCLES_OAM_SCAN,
            Mode::Transfer => CYCLES_TRANSFER,
            Mode::HBlank => CYCLES_HBLANK,
            Mode::VBlank => CYCLES_PER_SCANLINE,
        }
    }

    /// Advances the PPU by `cycles` and says whether the VBlank and STAT interrupts are
    /// requested.
    pub fn step(&mut self, cycles: u32) -> (r: (bool, bool))
        requires
            old(self).wf(),
        ensures
            final(self).wf(),
            final(self)@.wf(),
            (final(self)@, r.0, r.1) == old(self)@.step_spec(cycles),
    {
        if !self.lcd_enabled() {
            return (false, false);
        }

        let mut entered_vblank = false;
        let mut entered_stat_irq = false;

        self.mode_cycles = self.mode_cycles.saturating_add(cycles);
        let ghost start = self@;
        let mut threshold = Self::mode_threshold(self.mode);
        while self.mode_cycles >= threshold
            invariant
                self@.sizes_ok(),
                self@.lines_ok(),
                self.tiles_match(),
                threshold == mode_length(self@.mode),
                start.run_spec() == ({
                    let (s, v, st) = self@.run_spec();
                    (s, entered_vblank || v, entered_stat_irq || st)
                }),
            decreases self.mode_cycles,
        {
            self.mode_cycles = self.mode_cycles - threshold;
            let (vblank_now, stat_now) = self.advance_mode_once();
            entered_vblank = entered_vblank || vblank_now;
            entered_stat_irq = entered_stat_irq || stat_now;
            threshold = Self::mode_threshold(self.mode);
        }
        proof {
            start.lemma_run_keeps_shades();
        }

        // LYC coincidence can change as LY advances.
        if self.is_lyc_stat_enabled() && self.ly == self.lyc {
            entered_stat_irq = true;
        }

        (entered_vblank, entered_stat_irq)
    }

    fn advance_mode_once(&mut self) -> (r: (bool, bool))
        requires
            old(self)@.sizes_ok(),
            old(self)@.lines_ok(),
            old(self).tiles_match(),
        ensures
            final(self)@.sizes_ok(),
            final(self)@.lines_ok(),
            final(self).tiles_match(),
            (final(self)@, r.0, r.1) == old(self)@.advance_spec(),
    {
        match self.mode {
            Mode::OamScan => {
                self.set_mode(Mode::Transfer);
                (false, false)
            },
            Mode::Transfer => {
                if self.ly < VBLANK_START_LINE {
                    let y = self.ly as usize;
                    self.render_scanline(y);
                }
                let stat_irq = self.set_mode(Mode::HBlank);
                (false, stat_irq)
            },
            Mode::HBlank => {
                self.ly = self.ly.wrapping_add(1);
                if self.ly >= VBLANK_START_LINE {
                    let stat_irq = self.set_mode(Mode::VBlank);
                    (true, stat_irq)
                } else {
                    let stat_irq = self.set_mode(Mode::OamScan);
                    (false, stat_irq)
                }
            },
            Mode::VBlank => {
                self.ly = self.ly.wrapping_add(1);
                if self.ly > VBLANK_END_LINE {
                    self.ly = 0;
                    let stat_irq = self.set_mode(Mode::OamScan);
                    (false, stat_irq)
                } else {
                    (false, false)
                }
            },
        }
    }

    /// Draws line `y`: background, then window, then sprites.
    fn render_scanline(&mut self, y: usize)
        requires
            y < SCREEN_HEIGHT,
            old(self)@.sizes_ok(),
            old(self).tiles_match(),
        ensures
            final(self).tiles_match(),
            final(self)@ == (PpuState {
                screen: old(self)@.screen.update(y as int, old(self)@.render_line(y as int)),
                ..old(self)@
            }),
    {
        let ghost s0 = self@;
        let mut bg_color_ids = self.bg_scanline_color_ids(y);
        self.render_bg_scanline(y, &bg_color_ids);
        self.render_window_scanline(y, &mut bg_color_ids);
        let ghost s2 = self@;
        proof {
            s0.lemma_screen_irrelevant(s2, y as int);
        }
        self.render_obj_scanline(y, &bg_color_ids);
        assert(self@.screen =~= old(self)@.screen.update(y as int, old(self)@.render_line(y as int))) by {
            assert forall|x: int| 0 <= x < SCREEN_WIDTH implies #[trigger] self@.screen[y as int][x]
                == s0.pixel_shade(y as int, x) by {
                s0.lemma_best_irrelevant(s2, y as int, x, bg_color_ids@[x]);
            }
            assert(self@.screen[y as int] =~= old(self)@.render_line(y as int));
        }
    }

    fn set_mode(&mut self, new_mode: Mode) -> (r: bool)
        ensures
            final(self)@ == (PpuState { mode: new_mode, ..old(self)@ }),
            final(self).tile_data == old(self).tile_data,
            r == match new_mode {
                Mode::HBlank => old(self)@.hblank_stat_enabled(),
                Mode::VBlank => old(self)@.vblank_stat_enabled(),
                Mode::OamScan => old(self)@.oam_stat_enabled(),
                Mode::Transfer => false,
            },
    {
        self.mode = new_mode;
        match new_mode {
            Mode::HBlank => self.is_hblank_stat_enabled(),
            Mode::VBlank => self.is_vblank_stat_enabled(),
            Mode::OamScan => self.is_oam_stat_enabled(),
            Mode::Transfer => false,
        }
    }

    fn lcd_enabled(&self) -> (r: bool)
        ensures
            r == self@.lcd_enabled(),
    {
        (self.lcdc & 0x80) != 0
    }

    fn is_hblank_stat_enabled(&self) -> (r: bool)
        ensures
            r == self@.hblank_stat_enabled(),
    {
        (self.stat & 0x08) != 0
    }

    fn is_vblank_stat_enabled(&self) -> (r: bool)
        ensures
            r == self@.vblank_stat_enabled(),
    {
        (self.stat & 0x10) != 0
    }

    fn is_oam_stat_enabled(&self) -> (r: bool)
        ensures
            r == self@.oam_stat_enabled(),
    {
        (self.stat & 0x20) != 0
    }

    fn is_lyc_stat_enabled(&self) -> (r: bool)
        ensures
            r == self@.lyc_stat_enabled(),
    {
        (self.stat & 0x40) != 0
    }

    /// Color number of pixel (`pixel_col`, `pixel_row`) of the tile at (`tile_col`,
    /// `tile_row`) of the tile map at `map_base`.
    fn map_tile_color(&self, map_base: usize, tile_row: usize, tile_col: usize, pixel_row: usize, pixel_col: usize) -> (r: u8)
        requires
            self@.sizes_ok(),
            self.tiles_match(),
            map_base == BG_MAP0_OFFSET || map_base == BG_MAP1_OFFSET,
            tile_row < 32,
            tile_col < 32,
            pixel_row < 8,
            pixel_col < 8,
        ensures
            r == tile_pixel(
                self@.vram,
                self@.tile_index_of(self@.vram[map_base + tile_row * 32 + tile_col]),
                pixel_row * 8 + pixel_col,
            ),
    {
        let map_index = tile_row * 32 + tile_col;
        let tile_id = self.vram[map_base + map_index];
        let tile_index = self.resolve_bg_tile_index(tile_id);
        self.tile_data[tile_index][pixel_row * 8 + pixel_col]
    }

    /// Writes one screen pixel.
    fn set_pixel(&mut self, y: usize, x: usize, v: u8)
        requires
            y < SCREEN_HEIGHT,
            x < SCREEN_WIDTH,
            old(self)@.sizes_ok(),
        ensures
            final(self).tile_data == old(self).tile_data,
            final(self)@ == (PpuState {
                screen: old(self)@.screen.update(y as int, old(self)@.screen[y as int].update(x as int, v)),
                ..old(self)@
            }),
            final(self)@.sizes_ok(),
    {
        self.screen[y][x] = v;
        assert(self@.screen =~= old(self)@.screen.update(y as int, old(self)@.screen[y as int].update(x as int, v))) by {
            assert(self@.screen[y as int] =~= old(self)@.screen[y as int].update(x as int, v));
        }
    }

    /// Background color number at (`x`, `y`) with the map base and the scrolled tile row
    /// and pixel row of line `y` already worked out.
    fn bg_color_at(&self, y: usize, x: usize, map_base: usize, tile_row: usize, pixel_row: usize) -> (r: u8)
        requires
            y < SCREEN_HEIGHT,
            x < SCREEN_WIDTH,
            self@.sizes_ok(),
            self.tiles_match(),
            self@.bg_enabled(),
            map_base == self@.bg_map_base(),
            tile_row == ((self.scy + y) % 256) / 8,
            pixel_row == ((self.scy + y) % 256) % 8,
        ensures
            r == self@.bg_color_id(y as int, x as int),
    {
        let scrolled_x = self.scx.wrapping_add(x as u8);
        let tile_col = (scrolled_x as usize) / 8;
        let pixel_col = (scrolled_x as usize) % 8;
        self.map_tile_color(map_base, tile_row, tile_col, pixel_row, pixel_col)
    }


    fn bg_scanline_color_ids(&self, y: usize) -> (r: [u8; SCREEN_WIDTH])
        requires
            self@.sizes_ok(),
            self.tiles_match(),
        ensures
            y < SCREEN_HEIGHT ==> forall|x: int| 0 <= x < SCREEN_WIDTH ==> #[trigger] r@[x] == self@.bg_color_id(y as int, x),
    {
        let mut line = [0u8; SCREEN_WIDTH];
        if y >= SCREEN_HEIGHT || !self.bg_enabled() {
            return line;
        }

        let map_base = self.bg_map_base_offset();
        let scrolled_y = self.scy.wrapping_add(y as u8);
        let tile_row = (scrolled_y as usize) / 8;
        let pixel_row = (scrolled_y as usize) % 8;

        let mut x: usize = 0;
        while x < SCREEN_WIDTH
            invariant
                y < SCREEN_HEIGHT,
                self@.sizes_ok(),
                self.tiles_match(),
                self@.bg_enabled(),
                map_base == self@.bg_map_base(),
                tile_row == ((self.scy + y) % 256) / 8,
                pixel_row == ((self.scy + y) % 256) % 8,
                x <= SCREEN_WIDTH,
                forall|i: int| 0 <= i < x ==> #[trigger] line@[i] == self@.bg_color_id(y as int, i),
            decreases SCREEN_WIDTH - x,
        {
            line[x] = self.bg_color_at(y, x, map_base, tile_row, pixel_row);
            x += 1;
        }

        line
    }

    fn render_bg_scanline(&mut self, y: usize, bg_color_ids: &[u8; SCREEN_WIDTH])
        requires
            old(self)@.sizes_ok(),
        ensures
            final(self).tile_data == old(self).tile_data,
            final(self)@.sizes_ok(),
            y < SCREEN_HEIGHT ==> final(self)@ == (PpuState {
                screen: old(self)@.screen.update(
                    y as int,
                    Seq::new(SCREEN_WIDTH as nat, |x: int| palette_shade(old(self).bgp, bg_color_ids@[x])),
                ),
                ..old(self)@
            }),
            y >= SCREEN_HEIGHT ==> final(self)@ == old(self)@,
    {
        if y >= SCREEN_HEIGHT {
            return;
        }
        let mut x: usize = 0;
        while x < SCREEN_WIDTH
            invariant
                y < SCREEN_HEIGHT,
                x <= SCREEN_WIDTH,
                self.tile_data == old(self).tile_data,
                self@.sizes_ok(),
                self@ == (PpuState { screen: self@.screen, ..old(self)@ }),
                forall|j: int| 0 <= j < SCREEN_HEIGHT && j != y ==> #[trigger] self@.screen[j] == old(self)@.screen[j],
                forall|i: int| 0 <= i < x ==> #[trigger] self@.screen[y as int][i] == palette_shade(old(self).bgp, bg_color_ids@[i]),
                forall|i: int| x <= i < SCREEN_WIDTH ==> #[trigger] self@.screen[y as int][i] == old(self)@.screen[y as int][i],
            decreases SCREEN_WIDTH - x,
        {
            let shade = self.map_palette_color(self.bgp, bg_color_ids[x]);
            self.set_pixel(y, x, shade);
            x += 1;
        }
        assert(self@.screen =~= old(self)@.screen.update(
            y as int,
            Seq::new(SCREEN_WIDTH as nat, |x: int| palette_shade(old(self).bgp, bg_color_ids@[x])),
        )) by {
            assert(self@.screen[y as int] =~= Seq::new(SCREEN_WIDTH as nat, |x: int| palette_shade(old(self).bgp, bg_color_ids@[x])));
        }
    }

    fn render_window_scanline(&mut self, y: usize, bg_color_ids: &mut [u8; SCREEN_WIDTH])
        requires
            old(self)@.sizes_ok(),
            old(self).tiles_match(),
        ensures
            final(self).tile_data == old(self).tile_data,
            final(self)@.sizes_ok(),
            y < SCREEN_HEIGHT ==> final(bg_color_ids)@ == Seq::new(SCREEN_WIDTH as nat, |x: int|
                if old(self)@.window_covers(y as int, x) {
                    old(self)@.window_color_id(y as int, x)
                } else {
                    old(bg_color_ids)@[x]
                }),
            y < SCREEN_HEIGHT ==> final(self)@ == (PpuState {
                screen: old(self)@.screen.update(
                    y as int,
                    Seq::new(SCREEN_WIDTH as nat, |x: int|
                        if old(self)@.window_covers(y as int, x) {
                            palette_shade(old(self).bgp, old(self)@.window_color_id(y as int, x))
                        } else {
                            old(self)@.screen[y as int][x]
                        }),
                ),
                ..old(self)@
            }),
            y >= SCREEN_HEIGHT ==> final(self)@ == old(self)@ && final(bg_color_ids)@ == old(bg_color_ids)@,
    {
        if y >= SCREEN_HEIGHT {
            return;
        }
        if !self.window_enabled() || (y as u8) < self.wy {
            assert(bg_color_ids@ =~= Seq::new(SCREEN_WIDTH as nat, |x: int|
                if old(self)@.window_covers(y as int, x) {
                    old(self)@.window_color_id(y as int, x)
                } else {
                    old(bg_color_ids)@[x]
                }));
            assert(self@.screen =~= old(self)@.screen.update(
                y as int,
                Seq::new(SCREEN_WIDTH as nat, |x: int|
                    if old(self)@.window_covers(y as int, x) {
                        palette_shade(old(self).bgp, old(self)@.window_color_id(y as int, x))
                    } else {
                        old(self)@.screen[y as int][x]
                    }),
            )) by {
                assert(old(self)@.screen[y as int] =~= Seq::new(SCREEN_WIDTH as nat, |x: int|
                    if old(self)@.window_covers(y as int, x) {
                        palette_shade(old(self).bgp, old(self)@.window_color_id(y as int, x))
                    } else {
                        old(self)@.screen[y as int][x]
                    }));
            }
            return;
        }

        let map_base = self.window_map_base_offset();
        let window_origin_x = self.wx as i16 - 7;
        let window_y = (y as u8).wrapping_sub(self.wy) as usize;
        let tile_row = window_y / 8;
        let pixel_row = window_y % 8;

        let mut x: usize = 0;
        while x < SCREEN_WIDTH
            invariant
                y < SCREEN_HEIGHT,
                x <= SCREEN_WIDTH,
                self.tile_data == old(self).tile_data,
                self.tiles_match(),
                self@.sizes_ok(),
                self@ == (PpuState { screen: self@.screen, ..old(self)@ }),
                self@.window_enabled(),
                y >= self.wy,
                map_base == self@.window_map_base(),
                window_origin_x == self.wx - 7,
                window_y == y - self.wy,
                tile_row == window_y / 8,
                pixel_row == window_y % 8,
                forall|j: int| 0 <= j < SCREEN_HEIGHT && j != y ==> #[trigger] self@.screen[j] == old(self)@.screen[j],
                forall|i: int| 0 <= i < x ==> #[trigger] self@.screen[y as int][i] == (if old(self)@.window_covers(y as int, i) {
                    palette_shade(old(self).bgp, old(self)@.window_color_id(y as int, i))
                } else {
                    old(self)@.screen[y as int][i]
                }),
                forall|i: int| 0 <= i < x ==> #[trigger] bg_color_ids@[i] == (if old(self)@.window_covers(y as int, i) {
                    old(self)@.window_color_id(y as int, i)
                } else {
                    old(bg_color_ids)@[i]
                }),
                forall|i: int| x <= i < SCREEN_WIDTH ==> #[trigger] self@.screen[y as int][i] == old(self)@.screen[y as int][i],
                forall|i: int| x <= i < SCREEN_WIDTH ==> #[trigger] bg_color_ids@[i] == old(bg_color_ids)@[i],
            decreases SCREEN_WIDTH - x,
        {
            if (x as i16) >= window_origin_x {
                let window_x = (x as i16 - window_origin_x) as usize;
                let tile_col = window_x / 8;
                let pixel_col = window_x % 8;
                let color_id = self.map_tile_color(map_base, tile_row, tile_col, pixel_row, pixel_col);

                bg_color_ids[x] = color_id;
                let shade = self.map_palette_color(self.bgp, color_id);
                self.set_pixel(y, x, shade);
            }
            x += 1;
        }
        assert(bg_color_ids@ =~= Seq::new(SCREEN_WIDTH as nat, |x: int|
            if old(self)@.window_covers(y as int, x) {
                old(self)@.window_color_id(y as int, x)
            } else {
                old(bg_color_ids)@[x]
            }));
        assert(self@.screen =~= old(self)@.screen.update(
            y as int,
            Seq::new(SCREEN_WIDTH as nat, |x: int|
                if old(self)@.window_covers(y as int, x) {
                    palette_shade(old(self).bgp, old(self)@.window_color_id(y as int, x))
                } else {
                    old(self)@.screen[y as int][x]
                }),
        )) by {
            assert(self@.screen[y as int] =~= Seq::new(SCREEN_WIDTH as nat, |x: int|
                if old(self)@.window_covers(y as int, x) {
                    palette_shade(old(self).bgp, old(self)@.window_color_id(y as int, x))
                } else {
                    old(self)@.screen[y as int][x]
                }));
        }
    }

    /// The shade sprite `spr` gives to (`x`, `y`), if any.
    fn sprite_pixel(&self, spr: (i16, i16, u8, u8, usize), y: usize, x: usize, bg_id: u8, sprite_height: i16) -> (r: Option<u8>)
        requires
            y < SCREEN_HEIGHT,
            x < SCREEN_WIDTH,
            self@.sizes_ok(),
            self.tiles_match(),
            sprite_height == self@.obj_height(),
            -8 <= spr.0 <= 247,
            spr.1 <= y < spr.1 + sprite_height,
        ensures
            r == self@.sprite_shade(spr, y as int, x as int, bg_id),
    {
        let (sx, sy, tile_id, attrs, _index) = spr;
        if (x as i16) < sx || (x as i16) >= sx + 8 {
            return None;
        }

        let mut row = y as i16 - sy;
        let mut col = x as i16 - sx;

        if (attrs & 0x40) != 0 {
            row = sprite_height - 1 - row;
        }
        if (attrs & 0x20) != 0 {
            col = 7 - col;
        }

        let tile_index = if sprite_height == 16 {
            let base_tile = (tile_id & 0xFE) as usize;
            if row >= 8 {
                base_tile + 1
            } else {
                base_tile
            }
        } else {
            tile_id as usize
        };

        let tile_row = (row as usize) % 8;
        let tile_col = col as usize;
        let color_id = self.tile_data[tile_index][tile_row * 8 + tile_col];
        if color_id == 0 {
            return None;
        }

        let behind_bg = (attrs & 0x80) != 0;
        if behind_bg && bg_id != 0 {
            return None;
        }

        let palette = if (attrs & 0x10) != 0 { self.obp1 } else { self.obp0 };
        Some(self.map_palette_color(palette, color_id))
    }

    fn render_obj_scanline(&mut self, y: usize, bg_color_ids: &[u8; SCREEN_WIDTH])
        requires
            old(self)@.sizes_ok(),
            old(self).tiles_match(),
        ensures
            final(self).tile_data == old(self).tile_data,
            final(self)@.sizes_ok(),
            y < SCREEN_HEIGHT ==> final(self)@ == (PpuState {
                screen: old(self)@.screen.update(
                    y as int,
                    Seq::new(SCREEN_WIDTH as nat, |x: int| {
                        let list = old(self)@.visible_sprites(y as int, 40);
                        let best = old(self)@.best_sprite(list, y as int, x, bg_color_ids@[x], list.len() as int);
                        if old(self)@.obj_enabled() && best is Some {
                            best.unwrap().0
                        } else {
                            old(self)@.screen[y as int][x]
                        }
                    }),
                ),
                ..old(self)@
            }),
            y >= SCREEN_HEIGHT ==> final(self)@ == old(self)@,
    {
        let ghost new_line = Seq::new(SCREEN_WIDTH as nat, |x: int| {
            let list = old(self)@.visible_sprites(y as int, 40);
            let best = old(self)@.best_sprite(list, y as int, x, bg_color_ids@[x], list.len() as int);
            if old(self)@.obj_enabled() && best is Some {
                best.unwrap().0
            } else {
                old(self)@.screen[y as int][x]
            }
        });
        if y >= SCREEN_HEIGHT {
            return;
        }
        if !self.obj_enabled() {
            assert(self@.screen =~= old(self)@.screen.update(y as int, new_line)) by {
                assert(new_line =~= old(self)@.screen[y as int]);
            }
            return;
        }

        let sprite_height = self.obj_height() as i16;
        let mut visible_sprites: Vec<(i16, i16, u8, u8, usize)> = Vec::with_capacity(10);

        let mut index: usize = 0;
        while index < 40
            invariant_except_break
                index <= 40,
                visible_sprites@ == self@.visible_sprites(y as int, index as int),
                visible_sprites.len() < 10,
            invariant
                y < SCREEN_HEIGHT,
                self@.sizes_ok(),
                sprite_height == self@.obj_height(),
            ensures
                visible_sprites@ == self@.visible_sprites(y as int, 40),
            decreases 40 - index,
        {
            let base = index * 4;
            let sprite_y = self.oam[base] as i16 - 16;
            let sprite_x = self.oam[base + 1] as i16 - 8;
            let tile_index = self.oam[base + 2];
            let attrs = self.oam[base + 3];
            assert(self@.sprite(index as int) == (sprite_x, sprite_y, tile_index, attrs, index));

            let line = y as i16;
            if line >= sprite_y && line < sprite_y + sprite_height {
                assert(self@.sprite_on_line(index as int, y as int));
                visible_sprites.push((sprite_x, sprite_y, tile_index, attrs, index));
                assert(visible_sprites@ == self@.visible_sprites(y as int, index as int + 1));
                if visible_sprites.len() == 10 {
                    proof {
                        self@.lemma_visible_full(y as int, index as int + 1, 40);
                    }
                    break;
                }
            } else {
                assert(!self@.sprite_on_line(index as int, y as int));
                assert(visible_sprites@ == self@.visible_sprites(y as int, index as int + 1));
            }
            index += 1;
        }
        proof {
            self@.lemma_visible_props(y as int, 40);
        }

        let mut x: usize = 0;
        while x < SCREEN_WIDTH
            invariant
                y < SCREEN_HEIGHT,
                x <= SCREEN_WIDTH,
                self.tile_data == old(self).tile_data,
                self.tiles_match(),
                self@.sizes_ok(),
                self@ == (PpuState { screen: self@.screen, ..old(self)@ }),
                self@.obj_enabled(),
                sprite_height == self@.obj_height(),
                visible_sprites@ == old(self)@.visible_sprites(y as int, 40),
                new_line == Seq::new(SCREEN_WIDTH as nat, |x: int| {
                    let list = old(self)@.visible_sprites(y as int, 40);
                    let best = old(self)@.best_sprite(list, y as int, x, bg_color_ids@[x], list.len() as int);
                    if old(self)@.obj_enabled() && best is Some {
                        best.unwrap().0
                    } else {
                        old(self)@.screen[y as int][x]
                    }
                }),
                forall|j: int| 0 <= j < visible_sprites@.len() ==> {
                    let spr = #[trigger] visible_sprites@[j];
                    &&& -8 <= spr.0 <= 247
                    &&& spr.1 <= y < spr.1 + sprite_height
                },
                forall|j: int| 0 <= j < SCREEN_HEIGHT && j != y ==> #[trigger] self@.screen[j] == old(self)@.screen[j],
                forall|i: int| 0 <= i < x ==> #[trigger] self@.screen[y as int][i] == new_line[i],
                forall|i: int| x <= i < SCREEN_WIDTH ==> #[trigger] self@.screen[y as int][i] == old(self)@.screen[y as int][i],
            decreases SCREEN_WIDTH - x,
        {
            let mut best_pixel: Option<(u8, i16, usize)> = None;
            let mut k: usize = 0;
            while k < visible_sprites.len()
                invariant
                    y < SCREEN_HEIGHT,
                    x < SCREEN_WIDTH,
                    k <= visible_sprites@.len(),
                    self@.sizes_ok(),
                    self.tiles_match(),
                    sprite_height == self@.obj_height(),
                    forall|j: int| 0 <= j < visible_sprites@.len() ==> {
                        let spr = #[trigger] visible_sprites@[j];
                        &&& -8 <= spr.0 <= 247
                        &&& spr.1 <= y < spr.1 + sprite_height
                    },
                    self@ == (PpuState { screen: self@.screen, ..old(self)@ }),
                    best_pixel == old(self)@.best_sprite(visible_sprites@, y as int, x as int, bg_color_ids@[x as int], k as int),
                decreases visible_sprites@.len() - k,
            {
                let spr = visible_sprites[k];
                let sx = spr.0;
                let index = spr.4;
                match self.sprite_pixel(spr, y, x, bg_color_ids[x], sprite_height) {
                    None => {},
                    Some(mapped) => {
                        match best_pixel {
                            Some((_, best_x, best_idx)) => {
                                if sx < best_x || (sx == best_x && index < best_idx) {
                                    best_pixel = Some((mapped, sx, index));
                                }
                            },
                            None => {
                                best_pixel = Some((mapped, sx, index));
                            },
                        }
                    },
                }
                k += 1;
            }

            if let Some((pixel, _, _)) = best_pixel {
                self.set_pixel(y, x, pixel);
            }
            x += 1;
        }
        assert(self@.screen =~= old(self)@.screen.update(y as int, new_line)) by {
            assert(self@.screen[y as int] =~= new_line);
        }
    }

    fn bg_enabled(&self) -> (r: bool)
        ensures
            r == self@.bg_enabled(),
    {
        (self.lcdc & 0x01) != 0
    }

    fn bg_map_base_offset(&self) -> (r: usize)
        ensures
            r == self@.bg_map_base(),
    {
        if (self.lcdc & 0x08) != 0 {
            BG_MAP1_OFFSET
        } else {
            BG_MAP0_OFFSET
        }
    }

    fn window_enabled(&self) -> (r: bool)
        ensures
            r == self@.window_enabled(),
    {
        (self.lcdc & 0x20) != 0
    }

    fn window_map_base_offset(&self) -> (r: usize)
        ensures
            r == self@.window_map_base(),
    {
        if (self.lcdc & 0x40) != 0 {
            BG_MAP1_OFFSET
        } else {
            BG_MAP0_OFFSET
        }
    }

    fn obj_enabled(&self) -> (r: bool)
        ensures
            r == self@.obj_enabled(),
    {
        (self.lcdc & 0x02) != 0
    }

    fn obj_height(&self) -> (r: u8)
        ensures
            r == self@.obj_height(),
    {
        if (self.lcdc & 0x04) != 0 {
            16
        } else {
            8
        }
    }

    fn resolve_bg_tile_index(&self, tile_id: u8) -> (r: usize)
        ensures
            r == self@.tile_index_of(tile_id),
            r < TILE_COUNT,
    {
        // LCDC bit4: 1 => unsigned tile IDs from 0x8000; 0 => signed IDs from 0x9000.
        if (self.lcdc & 0x10) != 0 {
            tile_id as usize
        } else {
            proof {
                lemma_signed_tile_id(tile_id);
            }
            let signed = tile_id as i8 as i16;
            (256i16 + signed) as usize
        }
    }

    fn map_palette_color(&self, palette: u8, color_id: u8) -> (r: u8)
        ensures
            r == palette_shade(palette, color_id),
    {
        proof {
            lemma_two_bits(color_id);
        }
        let shift = (color_id & 0x03) * 2;
        (palette >> shift) & 0x03
    }

    /// Decodes all tiles from VRAM into the `tile_data` cache.
    fn decode_all_tiles(&mut self)
        ensures
            final(self).tiles_match(),
            final(self)@ == old(self)@,
    {
        // Each tile occupies 16 bytes in VRAM (2 bytes per row * 8 rows)
        let tiles = TILE_COUNT;
        let mut tile_index: usize = 0;
        while tile_index < tiles
            invariant
                tiles == TILE_COUNT,
                tile_index <= TILE_COUNT,
                self@ == old(self)@,
                forall|t: int, p: int|
                    0 <= t < tile_index && 0 <= p < TILE_SIZE ==> #[trigger] self.tile_data@[t]@[p]
                        == tile_pixel(self.vram@, t, p),
            decreases TILE_COUNT - tile_index,
        {
            let base = tile_index * 16;
            let mut row: usize = 0;
            while row < 8
                invariant
                    tile_index < TILE_COUNT,
                    base == tile_index * 16,
                    row <= 8,
                    self@ == old(self)@,
                    forall|t: int, p: int|
                        0 <= t < tile_index && 0 <= p < TILE_SIZE
                            ==> #[trigger] self.tile_data@[t]@[p] == tile_pixel(self.vram@, t, p),
                    forall|p: int|
                        0 <= p < row * 8 ==> #[trigger] self.tile_data@[tile_index as int]@[p]
                            == tile_pixel(self.vram@, tile_index as int, p),
                decreases 8 - row,
            {
                self.decode_row(tile_index, row);
                row += 1;
            }
            tile_index += 1;
        }
    }

    /// Decodes row `row` of tile `tile_index` from VRAM into the cache.
    fn decode_row(&mut self, tile_index: usize, row: usize)
        requires
            tile_index < TILE_COUNT,
            row < 8,
        ensures
            final(self)@ == old(self)@,
            forall|t: int, p: int|
                0 <= t < TILE_COUNT && 0 <= p < TILE_SIZE && !(t == tile_index && row * 8 <= p < row
                    * 8 + 8) ==> #[trigger] final(self).tile_data@[t]@[p] == old(self).tile_data@[t]@[p],
            forall|p: int|
                row * 8 <= p < row * 8 + 8 ==> #[trigger] final(self).tile_data@[tile_index as int]@[p]
                    == tile_pixel(final(self).vram@, tile_index as int, p),
    {
        let base = tile_index * 16;
        let b0 = self.vram[base + row * 2];
        let b1 = self.vram[base + row * 2 + 1];
        let mut x: u8 = 0;
        while x < 8
            invariant
                tile_index < TILE_COUNT,
                row < 8,
                x <= 8,
                base == tile_index * 16,
                b0 == self.vram@[tile_index * 16 + row * 2],
                b1 == self.vram@[tile_index * 16 + row * 2 + 1],
                self@ == old(self)@,
                forall|t: int, p: int|
                    0 <= t < TILE_COUNT && 0 <= p < TILE_SIZE && !(t == tile_index && row * 8 <= p
                        < row * 8 + x) ==> #[trigger] self.tile_data@[t]@[p] == old(self).tile_data@[t]@[p],
                forall|p: int|
                    row * 8 <= p < row * 8 + x ==> #[trigger] self.tile_data@[tile_index as int]@[p]
                        == tile_pixel(self.vram@, tile_index as int, p),
            decreases 8 - x,
        {
            let sh: u8 = 7 - x;
            let lo = (b0 >> sh) & 1;
            let hi = (b1 >> sh) & 1;
            let idx = row * 8 + x as usize;
            assert(idx / 8 == row && idx % 8 == x);
            self.tile_data[tile_index][idx] = lo | (hi << 1);
            x += 1;
        }
    }

    /// Re-decodes the tile row holding the VRAM byte at `addr` (0x8000..=0x97FF), the
    /// only byte that differs from `before`.
    fn update_tile_from_vram(&mut self, addr: usize, Ghost(before): Ghost<Seq<u8>>)
        requires
            0x8000 <= addr <= 0x97FF,
            before.len() == VRAM_SIZE,
            old(self).vram@ == before.update(addr - 0x8000, old(self).vram@[addr - 0x8000]),
            forall|t: int, p: int|
                0 <= t < TILE_COUNT && 0 <= p < TILE_SIZE ==> #[trigger] old(self).tile_data@[t]@[p]
                    == tile_pixel(before, t, p),
        ensures
            final(self)@ == old(self)@,
            final(self).tiles_match(),
    {
        let offset = addr - 0x8000;
        let tile_index = offset / 16;
        let byte_in_tile = offset % 16;
        let row = byte_in_tile / 2;
        self.decode_row(tile_index, row);
        assert forall|t: int, p: int|
            0 <= t < TILE_COUNT && 0 <= p < TILE_SIZE implies #[trigger] self.tile_data@[t]@[p]
            == tile_pixel(self.vram@, t, p) by {
            if !(t == tile_index && row * 8 <= p < row * 8 + 8) {
                assert(t * 16 + (p / 8) * 2 + 1 < 0x1800 && t * 16 + (p / 8) * 2 >= 0) by (nonlinear_arith)
                    requires
                        0 <= t < 384,
                        0 <= p < 64,
                ;
                assert(t * 16 + (p / 8) * 2 != offset && t * 16 + (p / 8) * 2 + 1 != offset) by (nonlinear_arith)
                    requires
                        0 <= t < 384,
                        0 <= p < 64,
                        tile_index == offset / 16,
                        row == (offset % 16) / 2,
                        !(t == tile_index && row * 8 <= p < row * 8 + 8),
                ;
            }
        }
    }
}


proof fn lemma_signed_tile_id(tile_id: u8) by (bit_vector)
    ensures
        tile_id < 128 ==> tile_id as i8 as i16 == tile_id as i16,
        tile_id >= 128 ==> tile_id as i8 as i16 == tile_id as i16 - 256,
{
}

proof fn lemma_two_bits(c: u8) by (bit_vector)
    ensures
        c & 0x03 <= 3,
{
}

impl PpuState {
    proof fn lemma_visible_len(self, y: int, n: int)
        ensures
            self.visible_sprites(y, n).len() <= 10,
            n >= 0 ==> self.visible_sprites(y, n).len() <= n,
        decreases n,
    {
        if n > 0 {
            self.lemma_visible_len(y, n - 1);
        }
    }

    proof fn lemma_visible_full(self, y: int, n: int, m: int)
        requires
            0 <= n <= m,
            self.visible_sprites(y, n).len() == 10,
        ensures
            self.visible_sprites(y, m) == self.visible_sprites(y, n),
        decreases m - n,
    {
        if m > n {
            self.lemma_visible_full(y, n, m - 1);
        }
    }

    proof fn lemma_visible_props(self, y: int, n: int)
        requires
            self.oam.len() == OAM_SIZE,
            0 <= n <= 40,
        ensures
            forall|j: int| 0 <= j < self.visible_sprites(y, n).len() ==> {
                let spr = #[trigger] self.visible_sprites(y, n)[j];
                &&& -8 <= spr.0 <= 247
                &&& spr.1 <= y < spr.1 + self.obj_height()
            },
        decreases n,
    {
        if n > 0 {
            self.lemma_visible_props(y, n - 1);
            let prev = self.visible_sprites(y, n - 1);
            if prev.len() < 10 && self.sprite_on_line(n - 1, y) {
                let spr = self.sprite(n - 1);
                assert(0 <= 4 * (n - 1) + 1 < OAM_SIZE);
                assert(-8 <= spr.0 <= 247);
                assert(self.visible_sprites(y, n) == prev.push(spr));
                assert forall|j: int| 0 <= j < self.visible_sprites(y, n).len() implies {
                    let s2 = #[trigger] self.visible_sprites(y, n)[j];
                    &&& -8 <= s2.0 <= 247
                    &&& s2.1 <= y < s2.1 + self.obj_height()
                } by {
                    if j < prev.len() {
                        assert(self.visible_sprites(y, n)[j] == prev[j]);
                    }
                }
            }
        }
    }
}


impl PpuState {
    /// Sprite selection does not depend on what the screen holds.
    proof fn lemma_screen_irrelevant(self, t: PpuState, y: int)
        requires
            t == (PpuState { screen: t.screen, ..self }),
        ensures
            t.visible_sprites(y, 40) == self.visible_sprites(y, 40),
    {
        self.lemma_visible_eq(t, y, 40);
    }

    proof fn lemma_visible_eq(self, t: PpuState, y: int, n: int)
        requires
            t == (PpuState { screen: t.screen, ..self }),
        ensures
            t.visible_sprites(y, n) == self.visible_sprites(y, n),
        decreases n,
    {
        if n > 0 {
            self.lemma_visible_eq(t, y, n - 1);
        }
    }

    proof fn lemma_best_irrelevant(self, t: PpuState, y: int, x: int, bg_id: u8)
        requires
            t == (PpuState { screen: t.screen, ..self }),
        ensures
            ({
                let list = self.visible_sprites(y, 40);
                t.best_sprite(list, y, x, bg_id, list.len() as int) == self.best_sprite(list, y, x, bg_id, list.len() as int)
            }),
    {
        let list = self.visible_sprites(y, 40);
        self.lemma_best_eq(t, list, y, x, bg_id, list.len() as int);
    }

    proof fn lemma_best_eq(self, t: PpuState, list: Seq<(i16, i16, u8, u8, usize)>, y: int, x: int, bg_id: u8, k: int)
        requires
            t == (PpuState { screen: t.screen, ..self }),
        ensures
            t.best_sprite(list, y, x, bg_id, k) == self.best_sprite(list, y, x, bg_id, k),
        decreases k,
    {
        if k > 0 {
            self.lemma_best_eq(t, list, y, x, bg_id, k - 1);
        }
    }
}

impl PpuState {
    /// Every pixel a line is drawn with is a shade.
    proof fn lemma_pixel_shade_range(self, y: int, x: int)
        ensures
            self.pixel_shade(y, x) <= 3,
    {
        lemma_all_shades_in_range();
        let bg_id = self.layer_color_id(y, x);
        let list = self.visible_sprites(y, 40);
        self.lemma_best_sprite_range(list, y, x, bg_id, list.len() as int);
    }

    proof fn lemma_best_sprite_range(
        self,
        list: Seq<(i16, i16, u8, u8, usize)>,
        y: int,
        x: int,
        bg_id: u8,
        k: int,
    )
        ensures
            self.best_sprite(list, y, x, bg_id, k) matches Some(b) ==> b.0 <= 3,
        decreases k,
    {
        lemma_all_shades_in_range();
        if k > 0 {
            self.lemma_best_sprite_range(list, y, x, bg_id, k - 1);
        }
    }

    proof fn lemma_advance_keeps_shades(self)
        requires
            self.sizes_ok(),
            self.shades_ok(),
        ensures
            self.advance_spec().0.sizes_ok(),
            self.advance_spec().0.shades_ok(),
            self.advance_spec().0.mode_cycles == self.mode_cycles,
    {
        if self.mode == Mode::Transfer && self.ly < VBLANK_START_LINE {
            let t = self.advance_spec().0;
            let ly = self.ly as int;
            assert(t.screen == self.screen.update(ly, self.render_line(ly)));
            assert forall|y: int, x: int| 0 <= y < SCREEN_HEIGHT && 0 <= x < SCREEN_WIDTH implies #[trigger] t.screen[y][x]
                <= 3 by {
                if y == ly {
                    assert(t.screen[y] == self.render_line(ly));
                    self.lemma_pixel_shade_range(y, x);
                } else {
                    assert(t.screen[y] == self.screen[y]);
                }
            }
        }
    }

    /// Running the mode changes keeps every pixel a shade.
    proof fn lemma_run_keeps_shades(self)
        requires
            self.sizes_ok(),
            self.shades_ok(),
        ensures
            self.run_spec().0.shades_ok(),
        decreases self.mode_cycles,
    {
        let th = mode_length(self.mode);
        if self.mode_cycles >= th {
            let s1 = PpuState { mode_cycles: (self.mode_cycles - th) as u32, ..self };
            s1.lemma_advance_keeps_shades();
            let s2 = s1.advance_spec().0;
            s2.lemma_run_keeps_shades();
        }
    }
}

impl PpuState {
    proof fn lemma_run_flags(self)
        ensures
            ({
                let (t, vblank, stat) = self.run_spec();
                &&& vblank == self.run_enters(Mode::VBlank)
                &&& stat == ((self.hblank_stat_enabled() && self.run_enters(Mode::HBlank))
                    || (self.vblank_stat_enabled() && self.run_enters(Mode::VBlank))
                    || (self.oam_stat_enabled() && self.run_enters(Mode::OamScan)))
                &&& t.stat == self.stat
                &&& t.lyc == self.lyc
            }),
        decreases self.mode_cycles,
    {
        let th = mode_length(self.mode);
        if self.mode_cycles >= th {
            let s1 = PpuState { mode_cycles: (self.mode_cycles - th) as u32, ..self };
            let s2 = s1.advance_spec().0;
            assert(s2.mode_cycles == s1.mode_cycles);
            s2.lemma_run_flags();
        }
    }
}

/// The two flags of a PPU step: with the LCD off nothing happens and neither is raised.
/// Otherwise the cycles are added (saturating) and the mode changes run; the VBlank flag
/// says whether line 144 was entered (VBlank begun), and the STAT flag whether a mode
/// was entered whose STAT source is enabled (HBlank bit 3, VBlank bit 4, OAM scan bit 5)
/// or, at the end, LY == LYC with that source (bit 6) enabled.
pub proof fn lemma_step_flags(s: PpuState, cycles: u32)
    ensures
        !s.lcd_enabled() ==> s.step_spec(cycles) == (s, false, false),
        s.lcd_enabled() ==> ({
            let sum = s.mode_cycles + cycles;
            let s0 = PpuState { mode_cycles: if sum > u32::MAX { u32::MAX } else { sum as u32 }, ..s };
            let (t, vblank, stat) = s.step_spec(cycles);
            &&& vblank == s0.run_enters(Mode::VBlank)
            &&& stat == ((s.hblank_stat_enabled() && s0.run_enters(Mode::HBlank))
                || (s.vblank_stat_enabled() && s0.run_enters(Mode::VBlank))
                || (s.oam_stat_enabled() && s0.run_enters(Mode::OamScan))
                || (s.lyc_stat_enabled() && t.ly == t.lyc))
        }),
{
    if s.lcd_enabled() {
        let sum = s.mode_cycles + cycles;
        let s0 = PpuState { mode_cycles: if sum > u32::MAX { u32::MAX } else { sum as u32 }, ..s };
        s0.lemma_run_flags();
    }
}

proof fn lemma_all_shades_in_range()
    ensures
        forall|p: u8, c: u8| #[trigger] palette_shade(p, c) <= 3,
{
    assert forall|p: u8, c: u8| #[trigger] palette_shade(p, c) <= 3 by {
        lemma_shade_range(p, c);
    }
}

/// The VRAM offset (from 0x8000) of the first byte of the tile that background or window
/// tile number `t` names, by LCDC bit 4: set, unsigned numbers from 0x8000; clear,
/// signed numbers from 0x9000.
pub open spec fn tile_data_offset(lcdc: u8, t: u8) -> int {
    if lcdc & 0x10 != 0 {
        16 * t
    } else {
        0x1000 + 16 * (if t < 128 { t as int } else { t - 256 })
    }
}

/// A background pixel, from the hardware addresses: with the background on, the tile
/// number is read from the map that LCDC bit 3 selects (0x9800 or 0x9C00) at the
/// scrolled position, and the color number from the tile data that LCDC bit 4 selects,
/// two bytes per row; with the background off it is 0. The same holds for the window,
/// at its own position within the map that LCDC bit 6 selects.
pub proof fn lemma_layer_pixel_address(s: PpuState, y: int, x: int)
    requires
        0 <= y < SCREEN_HEIGHT,
        0 <= x < SCREEN_WIDTH,
    ensures
        !s.bg_enabled() ==> s.bg_color_id(y, x) == 0,
        s.bg_enabled() ==> ({
            let sy = (s.scy + y) % 256;
            let sx = (s.scx + x) % 256;
            let map = if s.lcdc & 0x08 != 0 { 0x1C00int } else { 0x1800int };
            let t = s.vram[map + (sy / 8) * 32 + sx / 8];
            let row = tile_data_offset(s.lcdc, t) + 2 * (sy % 8);
            s.bg_color_id(y, x) == pixel_of(s.vram[row], s.vram[row + 1], (sx % 8) as u8)
        }),
        s.window_covers(y, x) ==> ({
            let wy = y - s.wy;
            let wx = x - (s.wx - 7);
            let map = if s.lcdc & 0x40 != 0 { 0x1C00int } else { 0x1800int };
            let t = s.vram[map + (wy / 8) * 32 + wx / 8];
            let row = tile_data_offset(s.lcdc, t) + 2 * (wy % 8);
            s.window_color_id(y, x) == pixel_of(s.vram[row], s.vram[row + 1], (wx % 8) as u8)
        }),
{
    let sy = (s.scy + y) % 256;
    let sx = (s.scx + x) % 256;
    assert(((sy % 8) * 8 + sx % 8) / 8 == sy % 8 && ((sy % 8) * 8 + sx % 8) % 8 == sx % 8);
    if s.window_covers(y, x) {
        let wy = y - s.wy;
        let wx = x - (s.wx - 7);
        assert(((wy % 8) * 8 + wx % 8) / 8 == wy % 8 && ((wy % 8) * 8 + wx % 8) % 8 == wx % 8);
    }
}

/// Outside pixel transfer, VRAM reads back what was written; outside OAM scan and
/// transfer, OAM does too; while blocked, reads give 0xFF and writes are ignored.
pub proof fn lemma_ppu_memory_read_after_write(s: PpuState, addr: int, value: u8)
    requires
        s.wf(),
    ensures
        0x8000 <= addr <= 0x9FFF && s.mode != Mode::Transfer ==> s.write_vram_spec(addr, value).read_vram_spec(addr) == value,
        s.mode == Mode::Transfer ==> s.write_vram_spec(addr, value) == s && s.read_vram_spec(addr) == 0xFF,
        0 <= addr < OAM_SIZE && !s.oam_blocked() ==> s.write_oam_spec(addr, value).read_oam_spec(addr) == value,
        s.oam_blocked() ==> s.write_oam_spec(addr, value) == s && s.read_oam_spec(addr) == 0xFF,
{
}

/// Shades are two-bit values.
pub proof fn lemma_shade_range(palette: u8, color_id: u8)
    ensures
        palette_shade(palette, color_id) <= 3,
{
    assert((palette >> (((color_id & 0x03) * 2) as u8)) & 0x03 <= 3) by (bit_vector);
}

} // verus!
