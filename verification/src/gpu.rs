//! The graphics unit: video RAM, object attribute memory, the display
//! registers, the per-dot timing state machine and the scanline renderer.
//!
//! One scanline lasts 456 clocks and passes through sprite scan (mode 2,
//! entered at dot 0), pixel transfer (mode 3, entered at dot 80) and
//! horizontal blank (mode 0, entered at dot 252); the visible 144 lines
//! are followed by 10 lines of
//! vertical blank (mode 1). Entering horizontal blank composes the pixels
//! of the line just finished into the framebuffer. The whole behaviour is
//! given by spec-level transition functions (`spec_cycle`, `spec_write`)
//! that the executable code follows exactly.
use vstd::prelude::*;

verus! {

/// Bytes in the RGBA framebuffer: 160 x 144 pixels, 4 bytes each.
pub const FRAME_BYTES: usize = 92160;

/// Bytes of video RAM (two 8KB banks).
pub const VRAM_BYTES: usize = 0x4000;

/// Bytes of object attribute memory (40 sprites, 4 bytes each).
pub const OAM_BYTES: usize = 0xA0;

/// The graphics unit's registers, memories and framebuffer.
pub struct Gpu {
    pub mode: u8,
    pub clock: u32,
    pub line: u8,
    pub lyc: u8,
    pub lcd_on: bool,
    pub win_tilemap: u16,
    pub tilebase: u16,
    pub bg_tilemap: u16,
    pub sprite_size: u32,
    pub sprite_on: bool,
    pub ly: bool,
    pub scy: u8,
    pub scx: u8,
    pub winy: u8,
    pub winx: u8,
    pub wy_trigger: bool,
    pub wy_pos: i32,
    pub palbr: u8,
    pub pal0r: u8,
    pub palb: Vec<u8>,
    pub pal0: Vec<u8>,
    pub vram: Vec<u8>,
    pub voam: Vec<u8>,
    pub vrambank: usize,
    pub data: Vec<u8>,
    pub updated: bool,
    pub interrupt: u8,
}

/// The mathematical state of the graphics unit: every register as an
/// unbounded integer or boolean, every memory as a sequence of bytes.
#[verifier::ext_equal]
pub struct GpuView {
    pub mode: int,
    pub clock: int,
    pub line: int,
    pub lyc: u8,
    pub lcd_on: bool,
    pub win_tilemap: u16,
    pub tilebase: u16,
    pub bg_tilemap: u16,
    pub sprite_size: int,
    pub sprite_on: bool,
    pub ly: bool,
    pub scy: u8,
    pub scx: u8,
    pub winy: u8,
    pub winx: u8,
    pub wy_trigger: bool,
    pub wy_pos: int,
    pub palbr: u8,
    pub pal0r: u8,
    pub palb: Seq<u8>,
    pub pal0: Seq<u8>,
    pub vram: Seq<u8>,
    pub voam: Seq<u8>,
    pub vrambank: int,
    pub data: Seq<u8>,
    pub updated: bool,
    pub interrupt: u8,
}

impl View for Gpu {
    type V = GpuView;

    open spec fn view(&self) -> GpuView {
        GpuView {
            mode: self.mode as int,
            clock: self.clock as int,
            line: self.line as int,
            lyc: self.lyc,
            lcd_on: self.lcd_on,
            win_tilemap: self.win_tilemap,
            tilebase: self.tilebase,
            bg_tilemap: self.bg_tilemap,
            sprite_size: self.sprite_size as int,
            sprite_on: self.sprite_on,
            ly: self.ly,
            scy: self.scy,
            scx: self.scx,
            winy: self.winy,
            winx: self.winx,
            wy_trigger: self.wy_trigger,
            wy_pos: self.wy_pos as int,
            palbr: self.palbr,
            pal0r: self.pal0r,
            palb: self.palb@,
            pal0: self.pal0@,
            vram: self.vram@,
            voam: self.voam@,
            vrambank: self.vrambank as int,
            data: self.data@,
            updated: self.updated,
            interrupt: self.interrupt,
        }
    }
}

impl GpuView {
    /// The structural part of the invariant: memory sizes and register
    /// ranges.
    pub open spec fn wf_base(self) -> bool {
        &&& self.vram.len() == VRAM_BYTES
        &&& self.voam.len() == OAM_BYTES
        &&& self.data.len() == FRAME_BYTES
        &&& self.palb.len() == 4
        &&& self.pal0.len() == 4
        &&& 0 <= self.mode <= 3
        &&& 0 <= self.clock < 456
        &&& 0 <= self.line < 154
        &&& (self.sprite_size == 8 || self.sprite_size == 16)
        &&& (self.vrambank == 0 || self.vrambank == 1)
        &&& (self.win_tilemap == 0x9800 || self.win_tilemap == 0x9C00)
        &&& (self.bg_tilemap == 0x9800 || self.bg_tilemap == 0x9C00)
        &&& (self.tilebase == 0x8000 || self.tilebase == 0x8800)
    }

    /// The full invariant: the structural part, and the relation between
    /// the window latch, its line counter and the scanline counter that
    /// keeps the counter bounded across a frame.
    pub open spec fn wf(self) -> bool {
        &&& self.wf_base()
        &&& (self.wy_trigger ==> self.line < 144)
        &&& (self.mode == 1 ==> !self.wy_trigger)
        &&& (self.wy_trigger ==> -1 <= self.wy_pos && (if self.mode == 0 {
            if self.clock >= 252 {
                self.wy_pos <= self.line
            } else {
                self.wy_pos < self.line
            }
        } else {
            self.wy_pos < self.line
        }))
    }
}

/// One entry of a palette register: two bits select one of the four
/// monochrome shades, lightest to darkest.
pub open spec fn spec_shade(r: u8, i: int) -> u8 {
    let c = if i == 0 {
        r as int % 4
    } else if i == 1 {
        (r as int / 4) % 4
    } else if i == 2 {
        (r as int / 16) % 4
    } else {
        (r as int / 64) % 4
    };
    if c == 0 {
        255
    } else if c == 1 {
        192
    } else if c == 2 {
        96
    } else {
        0
    }
}

/// The four shades a palette register denotes.
pub open spec fn spec_palette(r: u8) -> Seq<u8> {
    seq![spec_shade(r, 0), spec_shade(r, 1), spec_shade(r, 2), spec_shade(r, 3)]
}

/// What a read of a graphics address returns: video RAM and object
/// attribute memory by their offsets, the display registers bit for bit,
/// and 0xFF for everything unmapped.
pub open spec fn spec_gpu_read(g: GpuView, a: u16) -> u8 {
    if 0x8000 <= a && a <= 0x9FFF {
        g.vram[g.vrambank * 0x2000 + a as int % 0x2000]
    } else if 0xFE00 <= a && a <= 0xFE9F {
        g.voam[a - 0xFE00]
    } else if a == 0xFF40 {
        (if g.lcd_on {
            0x80u8
        } else {
            0u8
        }) | (if g.win_tilemap == 0x9C00 {
            0x40u8
        } else {
            0u8
        }) | (if g.tilebase == 0x8000 {
            0x10u8
        } else {
            0u8
        }) | (if g.bg_tilemap == 0x9C00 {
            0x08u8
        } else {
            0u8
        }) | (if g.sprite_size == 16 {
            0x04u8
        } else {
            0u8
        }) | (if g.sprite_on {
            0x02u8
        } else {
            0u8
        })
    } else if a == 0xFF41 {
        0x80u8 | (if g.ly {
            0x40u8
        } else {
            0u8
        }) | (if g.line == g.lyc as int {
            0x04u8
        } else {
            0u8
        }) | (g.mode as u8)
    } else if a == 0xFF42 {
        g.scy
    } else if a == 0xFF43 {
        g.scx
    } else if a == 0xFF44 {
        g.line as u8
    } else if a == 0xFF45 {
        g.lyc
    } else if a == 0xFF47 {
        g.palbr
    } else if a == 0xFF4A {
        g.winy
    } else if a == 0xFF4B {
        g.winx
    } else if a == 0xFF4F {
        (g.vrambank as u8) | 0xFE
    } else {
        0xFF
    }
}

/// The state after a write to a graphics address. Disabling the display
/// resets the scanline and dot counters, forces horizontal blank, clears
/// the window latch, whitens the whole framebuffer and signals a completed
/// frame. Writing a palette source register recomputes both shade tables.
pub open spec fn spec_gpu_write(g: GpuView, a: u16, v: u8) -> GpuView {
    if 0x8000 <= a && a <= 0x9FFF {
        GpuView { vram: g.vram.update(g.vrambank * 0x2000 + a as int % 0x2000, v), ..g }
    } else if 0xFE00 <= a && a <= 0xFE9F {
        GpuView { voam: g.voam.update(a - 0xFE00, v), ..g }
    } else if a == 0xFF40 {
        let lcd_on = v & 0x80 == 0x80;
        let g1 = GpuView {
            lcd_on,
            win_tilemap: if v & 0x40 == 0x40 {
                0x9C00u16
            } else {
                0x9800u16
            },
            tilebase: if v & 0x10 == 0x10 {
                0x8000u16
            } else {
                0x8800u16
            },
            bg_tilemap: if v & 0x08 == 0x08 {
                0x9C00u16
            } else {
                0x9800u16
            },
            sprite_size: if v & 0x04 == 0x04 {
                16int
            } else {
                8int
            },
            sprite_on: v & 0x02 == 0x02,
            ..g
        };
        if !lcd_on {
            GpuView {
                clock: 0,
                line: 0,
                mode: 0,
                wy_trigger: false,
                data: Seq::new(FRAME_BYTES as nat, |i: int| 255u8),
                updated: true,
                ..g1
            }
        } else {
            g1
        }
    } else if a == 0xFF41 {
        GpuView { ly: v & 0x40 == 0x40, ..g }
    } else if a == 0xFF42 {
        GpuView { scy: v, ..g }
    } else if a == 0xFF43 {
        GpuView { scx: v, ..g }
    } else if a == 0xFF45 {
        GpuView { lyc: v, ..g }
    } else if a == 0xFF47 {
        GpuView { palbr: v, palb: spec_palette(v), pal0: spec_palette(g.pal0r), ..g }
    } else if a == 0xFF48 {
        GpuView { pal0r: v, palb: spec_palette(g.palbr), pal0: spec_palette(v), ..g }
    } else if a == 0xFF49 {
        GpuView { palb: spec_palette(g.palbr), pal0: spec_palette(g.pal0r), ..g }
    } else if a == 0xFF4A {
        GpuView { winy: v, ..g }
    } else if a == 0xFF4B {
        GpuView { winx: v, ..g }
    } else if a == 0xFF4F {
        GpuView { vrambank: v as int % 2, ..g }
    } else {
        g
    }
}

/// The background or window shade of pixel `x` on the line being finished.
/// `winy` is the window's internal line counter, or -1 when the window does
/// not apply to this line.
pub open spec fn spec_bg_pixel(g: GpuView, winy: int, x: int) -> u8 {
    let winx_px = x + 7 - g.winx;
    let bgx = g.scx as int + x;
    let bgy = (g.scy + g.line) % 256;
    let in_window = winy >= 0 && winx_px >= 0;
    let tilemapbase = if in_window {
        g.win_tilemap as int
    } else {
        g.bg_tilemap as int
    };
    let tiley = if in_window {
        (winy / 8) % 32
    } else {
        (bgy / 8) % 32
    };
    let tilex = if in_window {
        winx_px / 8
    } else {
        (bgx / 8) % 32
    };
    let pixely = if in_window {
        winy % 8
    } else {
        bgy % 8
    };
    let pixelx = if in_window {
        winx_px % 8
    } else {
        bgx % 8
    };
    let tilenr = g.vram[(tilemapbase + tiley * 32 + tilex) % 0x2000];
    let tileidx = if g.tilebase == 0x8000 {
        tilenr as int
    } else {
        if tilenr < 128 {
            tilenr as int + 128
        } else {
            tilenr as int - 128
        }
    };
    let a0 = g.tilebase as int + tileidx * 16 + pixely * 2;
    let b1 = g.vram[a0 % 0x2000];
    let b2 = g.vram[(a0 + 1) % 0x2000];
    let sh = (7 - pixelx) as u8;
    let colnr = (if b1 & (1u8 << sh) != 0 {
        1int
    } else {
        0int
    }) + (if b2 & (1u8 << sh) != 0 {
        2int
    } else {
        0int
    });
    g.palb[colnr]
}

/// The screen Y coordinate where sprite `i` starts.
pub open spec fn sprite_y(g: GpuView, i: int) -> int {
    g.voam[4 * i] - 16
}

/// The screen X coordinate where sprite `i` starts.
pub open spec fn sprite_x(g: GpuView, i: int) -> int {
    g.voam[4 * i + 1] - 8
}

/// Whether sprite `i` covers the line being rendered.
pub open spec fn sprite_covers_line(g: GpuView, i: int) -> bool {
    sprite_y(g, i) <= g.line < sprite_y(g, i) + g.sprite_size
}

/// The sprites considered for the line: scanning the attribute table in
/// index order, the first ten entries whose vertical extent covers the
/// line.
pub open spec fn spec_selected(g: GpuView, n: int) -> Seq<int>
    decreases n,
{
    if n <= 0 {
        Seq::empty()
    } else {
        let s = spec_selected(g, n - 1);
        if s.len() < 10 && sprite_covers_line(g, n - 1) {
            s.push(n - 1)
        } else {
            s
        }
    }
}

/// The 2-bit colour index of sprite `i` at screen pixel `px`, honouring the
/// horizontal and vertical flip flags; 0 is transparent.
pub open spec fn sprite_colnr(g: GpuView, i: int, px: int) -> int {
    let flags = g.voam[4 * i + 3];
    let xflip = flags & 0x20 != 0;
    let yflip = flags & 0x40 != 0;
    let tilenum = if g.sprite_size == 16 {
        (g.voam[4 * i + 2] & 0xFE) as int
    } else {
        g.voam[4 * i + 2] as int
    };
    let dy = g.line - sprite_y(g, i);
    let tiley = if yflip {
        g.sprite_size - 1 - dy
    } else {
        dy
    };
    let addr = tilenum * 16 + tiley * 2;
    let b1 = g.vram[addr];
    let b2 = g.vram[addr + 1];
    let dx = px - sprite_x(g, i);
    let sh = (if xflip {
        dx
    } else {
        7 - dx
    }) as u8;
    (if b1 & (1u8 << sh) != 0 {
        1int
    } else {
        0int
    }) + (if b2 & (1u8 << sh) != 0 {
        2int
    } else {
        0int
    })
}

/// Whether sprite `i` contributes a pixel at screen position `px`.
pub open spec fn sprite_visible(g: GpuView, i: int, px: int) -> bool {
    &&& sprite_covers_line(g, i)
    &&& sprite_x(g, i) <= px < sprite_x(g, i) + 8
    &&& sprite_colnr(g, i, px) != 0
}

/// Drawing priority: a sprite with smaller X wins, ties going to the
/// smaller attribute-table index.
pub open spec fn sprite_before(g: GpuView, i: int, j: int) -> bool {
    sprite_x(g, i) < sprite_x(g, j) || (sprite_x(g, i) == sprite_x(g, j) && i < j)
}

/// The selected sprite that ends up on top at pixel `px`: among the visible
/// candidates, the one of highest priority.
pub open spec fn spec_topmost(g: GpuView, sel: Seq<int>, px: int) -> Option<int>
    decreases sel.len(),
{
    if sel.len() == 0 {
        None
    } else {
        let rest = spec_topmost(g, sel.drop_last(), px);
        let i = sel.last();
        if sprite_visible(g, i, px) {
            match rest {
                None => Some(i),
                Some(j) => if sprite_before(g, i, j) {
                    Some(i)
                } else {
                    Some(j)
                },
            }
        } else {
            rest
        }
    }
}

/// The sprite shade drawn at pixel `px` of the current line, if any sprite
/// covers it with a non-transparent colour.
pub open spec fn spec_sprite_pixel(g: GpuView, px: int) -> Option<u8> {
    if !g.sprite_on {
        None
    } else {
        match spec_topmost(g, spec_selected(g, 40), px) {
            None => None,
            Some(i) => Some(g.pal0[sprite_colnr(g, i, px)]),
        }
    }
}

/// Whether framebuffer byte `i` is a colour byte (not alpha) of line
/// `line`.
pub open spec fn on_line_rgb(line: int, i: int) -> bool {
    line * 640 <= i < line * 640 + 640 && i % 4 != 3
}

/// The state after background/window compositing of the current line: the
/// window line counter advances when the window is latched and its X is on
/// screen, and every colour byte of the line takes its background shade.
pub open spec fn spec_bg_applied(g: GpuView) -> GpuView {
    let trig = g.wy_trigger && g.winx <= 166;
    let winy = if trig {
        g.wy_pos + 1
    } else {
        -1
    };
    let g1 = GpuView {
        wy_pos: if trig {
            g.wy_pos + 1
        } else {
            g.wy_pos
        },
        ..g
    };
    GpuView {
        data: Seq::new(
            FRAME_BYTES as nat,
            |i: int|
                if on_line_rgb(g1.line, i) {
                    spec_bg_pixel(g1, winy, (i - g1.line * 640) / 4)
                } else {
                    g1.data[i]
                },
        ),
        ..g1
    }
}

/// The state after sprite compositing: each colour byte of the line is
/// overwritten by the topmost sprite pixel where one exists.
pub open spec fn spec_sprites_over(g: GpuView) -> GpuView {
    GpuView {
        data: Seq::new(
            FRAME_BYTES as nat,
            |i: int|
                if on_line_rgb(g.line, i) {
                    match spec_sprite_pixel(g, (i - g.line * 640) / 4) {
                        Some(c) => c,
                        None => g.data[i],
                    }
                } else {
                    g.data[i]
                },
        ),
        ..g
    }
}

/// Rendering one finished line: background and window first, sprites on
/// top.
pub open spec fn spec_render(g: GpuView) -> GpuView {
    spec_sprites_over(spec_bg_applied(g))
}

/// The mode-transition function. Entering horizontal blank (0) renders the
/// finished line; entering vertical blank (1) clears the window latch,
/// raises the frame interrupt and marks the frame complete; entering pixel
/// transfer (3) latches the window once the window's start line is reached.
pub open spec fn spec_change_mode(g: GpuView, m: int) -> GpuView {
    if m == 0 {
        spec_render(GpuView { mode: 0, ..g })
    } else if m == 1 {
        GpuView { mode: 1, wy_trigger: false, interrupt: g.interrupt | 0x01, updated: true, ..g }
    } else if m == 2 {
        GpuView { mode: 2, ..g }
    } else {
        if !g.wy_trigger && g.line == g.winy as int {
            GpuView { mode: 3, wy_trigger: true, wy_pos: -1, ..g }
        } else {
            GpuView { mode: 3, ..g }
        }
    }
}

/// One timing step of at most 80 clocks: the dot counter advances; crossing
/// 456 finishes the line, steps the scanline counter modulo 154 and raises
/// the coincidence interrupt when the new line matches the compare register
/// with reporting enabled; the mode is then re-evaluated for the new
/// position.
pub open spec fn spec_chunk(g: GpuView, c: int) -> GpuView {
    let clock1 = g.clock + c;
    let g1 = if clock1 >= 456 {
        let l2 = (g.line + 1) % 154;
        let int2 = if g.ly && l2 == g.lyc as int {
            g.interrupt | 0x02
        } else {
            g.interrupt
        };
        let gb = GpuView { clock: clock1 - 456, line: l2, interrupt: int2, ..g };
        if l2 >= 144 && gb.mode != 1 {
            spec_change_mode(gb, 1)
        } else {
            gb
        }
    } else {
        GpuView { clock: clock1, ..g }
    };
    if g1.line < 144 {
        if g1.clock < 80 {
            if g1.mode != 2 {
                spec_change_mode(g1, 2)
            } else {
                g1
            }
        } else if g1.clock < 252 {
            if g1.mode != 3 {
                spec_change_mode(g1, 3)
            } else {
                g1
            }
        } else {
            if g1.mode != 0 {
                spec_change_mode(g1, 0)
            } else {
                g1
            }
        }
    } else {
        g1
    }
}

/// Advancing the unit by `t` clocks: nothing moves while the display is
/// off; otherwise the budget is consumed in chunks of at most 80.
pub open spec fn spec_cycle(g: GpuView, t: int) -> GpuView
    decreases t,
{
    if !g.lcd_on || t <= 0 {
        g
    } else {
        let c = if t >= 80 {
            80int
        } else {
            t
        };
        spec_cycle(spec_chunk(g, c), t - c)
    }
}

/// Which framebuffer bytes belong to pixel `x` of the line starting at
/// byte `lb`: exactly the three colour bytes `lb + 4x .. lb + 4x + 2`.
proof fn lemma_px_bytes(lb: int, x: int, i: int)
    requires
        lb % 4 == 0,
        0 <= x,
        lb <= i < lb + 640,
    ensures
        ((i - lb) / 4 == x && i % 4 != 3) <==> (i == lb + 4 * x || i == lb + 4 * x + 1 || i == lb
            + 4 * x + 2),
{
    let r = i - lb;
    vstd::arithmetic::div_mod::lemma_fundamental_div_mod(r, 4);
    vstd::arithmetic::div_mod::lemma_fundamental_div_mod(lb, 4);
    vstd::arithmetic::div_mod::lemma_mod_multiples_vanish(lb / 4, r, 4);
}

/// A vector of `n` copies of `b`.
pub fn filled_vec(n: usize, b: u8) -> (v: Vec<u8>)
    ensures
        v@ == Seq::new(n as nat, |i: int| b),
{
    let mut v: Vec<u8> = Vec::new();
    let mut i: usize = 0;
    while i < n
        invariant
            i <= n,
            v@.len() == i,
            forall|j: int| 0 <= j < i ==> v@[j] == b,
        decreases n - i,
    {
        v.push(b);
        i += 1;
    }
    proof {
        assert(v@ =~= Seq::new(n as nat, |i: int| b));
    }
    v
}

/// One shade of a palette register.
fn shade_of(r: u8, i: u8) -> (s: u8)
    requires
        i < 4,
    ensures
        s == spec_shade(r, i as int),
{
    let c = if i == 0 {
        r % 4
    } else if i == 1 {
        (r / 4) % 4
    } else if i == 2 {
        (r / 16) % 4
    } else {
        (r / 64) % 4
    };
    if c == 0 {
        255
    } else if c == 1 {
        192
    } else if c == 2 {
        96
    } else {
        0
    }
}

impl Gpu {
    /// Power-on state: display off, counters at zero, memories cleared.
    pub fn new() -> (r: Gpu)
        ensures
            r@.wf(),
            r@ == (GpuView {
                mode: 0,
                clock: 0,
                line: 0,
                lyc: 0,
                lcd_on: false,
                win_tilemap: 0x9C00,
                tilebase: 0x8000,
                bg_tilemap: 0x9C00,
                sprite_size: 8,
                sprite_on: false,
                ly: false,
                scy: 0,
                scx: 0,
                winy: 0,
                winx: 0,
                wy_trigger: false,
                wy_pos: -1,
                palbr: 0,
                pal0r: 0,
                palb: Seq::new(4, |i: int| 0u8),
                pal0: Seq::new(4, |i: int| 0u8),
                vram: Seq::new(VRAM_BYTES as nat, |i: int| 0u8),
                voam: Seq::new(OAM_BYTES as nat, |i: int| 0u8),
                vrambank: 0,
                data: Seq::new(FRAME_BYTES as nat, |i: int| 0u8),
                updated: false,
                interrupt: 0,
            }),
    {
        let r = Gpu {
            mode: 0,
            clock: 0,
            line: 0,
            lyc: 0,
            lcd_on: false,
            win_tilemap: 0x9C00,
            tilebase: 0x8000,
            bg_tilemap: 0x9C00,
            sprite_size: 8,
            sprite_on: false,
            ly: false,
            scy: 0,
            scx: 0,
            winy: 0,
            winx: 0,
            wy_trigger: false,
            wy_pos: -1,
            palbr: 0,
            pal0r: 0,
            palb: filled_vec(4, 0),
            pal0: filled_vec(4, 0),
            vram: filled_vec(VRAM_BYTES, 0),
            voam: filled_vec(OAM_BYTES, 0),
            vrambank: 0,
            data: filled_vec(FRAME_BYTES, 0),
            updated: false,
            interrupt: 0,
        };
        proof {
            assert(r@ =~= (GpuView {
                mode: 0,
                clock: 0,
                line: 0,
                lyc: 0,
                lcd_on: false,
                win_tilemap: 0x9C00,
                tilebase: 0x8000,
                bg_tilemap: 0x9C00,
                sprite_size: 8,
                sprite_on: false,
                ly: false,
                scy: 0,
                scx: 0,
                winy: 0,
                winx: 0,
                wy_trigger: false,
                wy_pos: -1,
                palbr: 0,
                pal0r: 0,
                palb: Seq::new(4, |i: int| 0u8),
                pal0: Seq::new(4, |i: int| 0u8),
                vram: Seq::new(VRAM_BYTES as nat, |i: int| 0u8),
                voam: Seq::new(OAM_BYTES as nat, |i: int| 0u8),
                vrambank: 0,
                data: Seq::new(FRAME_BYTES as nat, |i: int| 0u8),
                updated: false,
                interrupt: 0,
            }));
        }
        r
    }

    /// Read a graphics address.
    pub fn read_byte(&self, a: u16) -> (r: u8)
        requires
            self@.wf(),
        ensures
            r == spec_gpu_read(self@, a),
    {
        if 0x8000 <= a && a <= 0x9FFF {
            self.vram[self.vrambank * 0x2000 + (a as usize) % 0x2000]
        } else if 0xFE00 <= a && a <= 0xFE9F {
            self.voam[(a - 0xFE00) as usize]
        } else if a == 0xFF40 {
            (if self.lcd_on {
                0x80u8
            } else {
                0u8
            }) | (if self.win_tilemap == 0x9C00 {
                0x40u8
            } else {
                0u8
            }) | (if self.tilebase == 0x8000 {
                0x10u8
            } else {
                0u8
            }) | (if self.bg_tilemap == 0x9C00 {
                0x08u8
            } else {
                0u8
            }) | (if self.sprite_size == 16 {
                0x04u8
            } else {
                0u8
            }) | (if self.sprite_on {
                0x02u8
            } else {
                0u8
            })
        } else if a == 0xFF41 {
            0x80u8 | (if self.ly {
                0x40u8
            } else {
                0u8
            }) | (if self.line == self.lyc {
                0x04u8
            } else {
                0u8
            }) | self.mode
        } else if a == 0xFF42 {
            self.scy
        } else if a == 0xFF43 {
            self.scx
        } else if a == 0xFF44 {
            self.line
        } else if a == 0xFF45 {
            self.lyc
        } else if a == 0xFF47 {
            self.palbr
        } else if a == 0xFF4A {
            self.winy
        } else if a == 0xFF4B {
            self.winx
        } else if a == 0xFF4F {
            (self.vrambank as u8) | 0xFE
        } else {
            0xFF
        }
    }

    /// Recompute both shade tables from their source registers.
    fn recompute_palettes(&mut self)
        ensures
            final(self)@ == (GpuView {
                palb: spec_palette(old(self).palbr),
                pal0: spec_palette(old(self).pal0r),
                ..old(self)@
            }),
    {
        let mut pb: Vec<u8> = Vec::new();
        pb.push(shade_of(self.palbr, 0));
        pb.push(shade_of(self.palbr, 1));
        pb.push(shade_of(self.palbr, 2));
        pb.push(shade_of(self.palbr, 3));
        let mut p0: Vec<u8> = Vec::new();
        p0.push(shade_of(self.pal0r, 0));
        p0.push(shade_of(self.pal0r, 1));
        p0.push(shade_of(self.pal0r, 2));
        p0.push(shade_of(self.pal0r, 3));
        self.palb = pb;
        self.pal0 = p0;
        proof {
            assert(self.palb@ =~= spec_palette(self.palbr));
            assert(self.pal0@ =~= spec_palette(self.pal0r));
            assert(self@ =~= (GpuView {
                palb: spec_palette(old(self).palbr),
                pal0: spec_palette(old(self).pal0r),
                ..old(self)@
            }));
        }
    }

    /// Write a graphics address.
    pub fn write_byte(&mut self, a: u16, v: u8)
        requires
            old(self)@.wf(),
        ensures
            final(self)@.wf(),
            final(self)@ == spec_gpu_write(old(self)@, a, v),
    {
        if 0x8000 <= a && a <= 0x9FFF {
            let idx = self.vrambank * 0x2000 + (a as usize) % 0x2000;
            self.vram[idx] = v;
        } else if 0xFE00 <= a && a <= 0xFE9F {
            self.voam[(a - 0xFE00) as usize] = v;
        } else if a == 0xFF40 {
            self.lcd_on = v & 0x80 == 0x80;
            self.win_tilemap = if v & 0x40 == 0x40 {
                0x9C00
            } else {
                0x9800
            };
            self.tilebase = if v & 0x10 == 0x10 {
                0x8000
            } else {
                0x8800
            };
            self.bg_tilemap = if v & 0x08 == 0x08 {
                0x9C00
            } else {
                0x9800
            };
            self.sprite_size = if v & 0x04 == 0x04 {
                16
            } else {
                8
            };
            self.sprite_on = v & 0x02 == 0x02;
            if !self.lcd_on {
                self.clock = 0;
                self.line = 0;
                self.mode = 0;
                self.wy_trigger = false;
                self.data = filled_vec(FRAME_BYTES, 255);
                self.updated = true;
            }
        } else if a == 0xFF41 {
            self.ly = v & 0x40 == 0x40;
        } else if a == 0xFF42 {
            self.scy = v;
        } else if a == 0xFF43 {
            self.scx = v;
        } else if a == 0xFF45 {
            self.lyc = v;
        } else if a == 0xFF47 {
            self.palbr = v;
            self.recompute_palettes();
        } else if a == 0xFF48 {
            self.pal0r = v;
            self.recompute_palettes();
        } else if a == 0xFF49 {
            self.recompute_palettes();
        } else if a == 0xFF4A {
            self.winy = v;
        } else if a == 0xFF4B {
            self.winx = v;
        } else if a == 0xFF4F {
            self.vrambank = (v % 2) as usize;
        }
        proof {
            assert(self@ =~= spec_gpu_write(old(self)@, a, v));
        }
    }

    /// The background/window shade of one pixel. `g` is a snapshot of the
    /// unit's state whose tile-related fields agree with the live state;
    /// pinning the snapshot lets the caller keep talking about one state
    /// while it rewrites the framebuffer.
    fn bg_pixel_color(&self, Ghost(g): Ghost<GpuView>, winy: i32, x: u32) -> (c: u8)
        requires
            g.vram == self@.vram,
            g.palb == self@.palb,
            g.win_tilemap == self@.win_tilemap,
            g.bg_tilemap == self@.bg_tilemap,
            g.tilebase == self@.tilebase,
            g.scx == self@.scx,
            g.scy == self@.scy,
            g.winx == self@.winx,
            g.line == self@.line,
            g.wf_base(),
            g.line < 144,
            x < 160,
            -1 <= winy <= 153,
        ensures
            c == spec_bg_pixel(g, winy as int, x as int),
    {
        let winx_px: i32 = x as i32 + 7 - self.winx as i32;
        let bgx: u32 = self.scx as u32 + x;
        let bgy: u8 = self.scy.wrapping_add(self.line);
        proof {
            assert(bgy as int == (g.scy + g.line) % 256);
        }
        let in_window = winy >= 0 && winx_px >= 0;
        let tilemapbase: u32 = if in_window {
            self.win_tilemap as u32
        } else {
            self.bg_tilemap as u32
        };
        let tiley: u32 = if in_window {
            ((winy as u32) / 8) % 32
        } else {
            ((bgy as u32) / 8) % 32
        };
        let tilex: u32 = if in_window {
            (winx_px as u32) / 8
        } else {
            (bgx / 8) % 32
        };
        let pixely: u32 = if in_window {
            (winy as u32) % 8
        } else {
            (bgy as u32) % 8
        };
        let pixelx: u32 = if in_window {
            (winx_px as u32) % 8
        } else {
            bgx % 8
        };
        let tilenr: u8 = self.vram[((tilemapbase + tiley * 32 + tilex) % 0x2000) as usize];
        let tileidx: u32 = if self.tilebase == 0x8000 {
            tilenr as u32
        } else if tilenr < 128 {
            tilenr as u32 + 128
        } else {
            tilenr as u32 - 128
        };
        let a0: u32 = self.tilebase as u32 + tileidx * 16 + pixely * 2;
        let b1: u8 = self.vram[(a0 % 0x2000) as usize];
        let b2: u8 = self.vram[((a0 + 1) % 0x2000) as usize];
        let sh: u8 = (7 - pixelx) as u8;
        let colnr: usize = (if b1 & (1u8 << sh) != 0 {
            1usize
        } else {
            0usize
        }) + (if b2 & (1u8 << sh) != 0 {
            2usize
        } else {
            0usize
        });
        self.palb[colnr]
    }

    /// Compose the background and window pixels of the line being finished
    /// into the framebuffer, advancing the window line counter when the
    /// window is latched and on screen.
    fn draw_background(&mut self)
        requires
            old(self)@.wf_base(),
            old(self)@.line < 144,
            old(self)@.wy_trigger ==> -1 <= old(self)@.wy_pos < old(self)@.line,
        ensures
            final(self)@ == spec_bg_applied(old(self)@),
    {
        let trig = self.wy_trigger && self.winx <= 166;
        if trig {
            self.wy_pos = self.wy_pos + 1;
        }
        let winy: i32 = if trig {
            self.wy_pos
        } else {
            -1
        };
        let ghost g1 = self@;
        proof {
            assert(g1 =~= (GpuView {
                wy_pos: if old(self)@.wy_trigger && old(self)@.winx <= 166 {
                    old(self)@.wy_pos + 1
                } else {
                    old(self)@.wy_pos
                },
                ..old(self)@
            }));
        }
        let line_base: usize = (self.line as usize) * 640;
        let mut x: usize = 0;
        while x < 160
            invariant
                x <= 160,
                line_base == g1.line * 640,
                -1 <= winy <= 153,
                winy as int == (if g1.wy_trigger && g1.winx <= 166 {
                    g1.wy_pos
                } else {
                    -1int
                }),
                g1.wf_base(),
                g1.line < 144,
                self@ == (GpuView { data: self@.data, ..g1 }),
                self@.data.len() == FRAME_BYTES,
                forall|i: int|
                    0 <= i < FRAME_BYTES ==> self@.data[i] == (if on_line_rgb(g1.line, i) && (i
                        - g1.line * 640) / 4 < x {
                        spec_bg_pixel(g1, winy as int, (i - g1.line * 640) / 4)
                    } else {
                        g1.data[i]
                    }),
            decreases 160 - x,
        {
            let ghost old_data = self@.data;
            proof {
                assert(forall|i: int|
                    0 <= i < FRAME_BYTES ==> old_data[i] == (if on_line_rgb(g1.line, i) && (i
                        - g1.line * 640) / 4 < x as int {
                        spec_bg_pixel(g1, winy as int, (i - g1.line * 640) / 4)
                    } else {
                        g1.data[i]
                    }));
            }
            let c = self.bg_pixel_color(Ghost(g1), winy, x as u32);
            let base = line_base + x * 4;
            self.data[base] = c;
            self.data[base + 1] = c;
            self.data[base + 2] = c;
            proof {
                assert forall|i: int|
                    0 <= i < FRAME_BYTES implies self@.data[i] == (if on_line_rgb(g1.line, i) && (
                i - g1.line * 640) / 4 < x as int + 1 {
                    spec_bg_pixel(g1, winy as int, (i - g1.line * 640) / 4)
                } else {
                    g1.data[i]
                }) by {
                    let lb = g1.line * 640;
                    vstd::arithmetic::div_mod::lemma_mod_multiples_vanish(160 * g1.line, 0, 4);
                    if lb <= i < lb + 640 {
                        lemma_px_bytes(lb, x as int, i);
                        if i == lb + 4 * (x as int) || i == lb + 4 * (x as int) + 1 || i == lb + 4
                            * (x as int) + 2 {
                            assert(on_line_rgb(g1.line, i));
                            assert((i - g1.line * 640) / 4 == x as int);
                        } else {
                            assert(self@.data[i] == old_data[i]);
                        }
                    } else {
                        assert(!on_line_rgb(g1.line, i));
                        assert(self@.data[i] == old_data[i]);
                    }
                }
            }
            x += 1;
        }
        proof {
            assert(self@.data =~= spec_bg_applied(old(self)@).data);
            assert(self@ =~= spec_bg_applied(old(self)@));
        }
    }

    /// The 2-bit colour index of sprite `i` at pixel `x` of the current
    /// line, against the snapshot `g` of the sprite-related state.
    fn sprite_colnr_at(&self, Ghost(g): Ghost<GpuView>, i: usize, x: usize) -> (c: u8)
        requires
            g.vram == self@.vram,
            g.voam == self@.voam,
            g.line == self@.line,
            g.sprite_size == self@.sprite_size,
            g.wf_base(),
            i < 40,
            x < 160,
            sprite_covers_line(g, i as int),
            sprite_x(g, i as int) <= x < sprite_x(g, i as int) + 8,
        ensures
            c as int == sprite_colnr(g, i as int, x as int),
            c < 4,
    {
        let flags = self.voam[4 * i + 3];
        let xflip = flags & 0x20 != 0;
        let yflip = flags & 0x40 != 0;
        let tilenum: u32 = if self.sprite_size == 16 {
            (self.voam[4 * i + 2] & 0xFE) as u32
        } else {
            self.voam[4 * i + 2] as u32
        };
        let sy: i32 = self.voam[4 * i] as i32 - 16;
        let dy: i32 = self.line as i32 - sy;
        let size: i32 = self.sprite_size as i32;
        let tiley: i32 = if yflip {
            size - 1 - dy
        } else {
            dy
        };
        let addr: usize = (tilenum as usize) * 16 + (tiley as usize) * 2;
        let b1 = self.vram[addr];
        let b2 = self.vram[addr + 1];
        let sx: i32 = self.voam[4 * i + 1] as i32 - 8;
        let dx: i32 = x as i32 - sx;
        let sh: u8 = if xflip {
            dx as u8
        } else {
            (7 - dx) as u8
        };
        let m: u8 = 1u8 << sh;
        (if b1 & m != 0 {
            1u8
        } else {
            0u8
        }) + (if b2 & m != 0 {
            2u8
        } else {
            0u8
        })
    }

    /// Overlay the sprites onto the line being finished: for each pixel,
    /// the highest-priority visible sprite (smallest X, ties to the
    /// smallest table index) among the first ten covering the line.
    fn draw_sprites(&mut self)
        requires
            old(self)@.wf_base(),
            old(self)@.line < 144,
        ensures
            final(self)@ == spec_sprites_over(old(self)@),
    {
        let ghost g0 = self@;
        if !self.sprite_on {
            proof {
                assert(self@.data =~= spec_sprites_over(g0).data);
                assert(self@ =~= spec_sprites_over(g0));
            }
            return ;
        }
        // Scan the attribute table in index order for the first ten sprites
        // whose vertical extent covers this line.
        let mut sel: Vec<usize> = Vec::new();
        let mut idx: usize = 0;
        while idx < 40
            invariant
                idx <= 40,
                self@ == g0,
                g0.wf_base(),
                sel@.len() == spec_selected(g0, idx as int).len(),
                forall|k: int|
                    0 <= k < sel@.len() ==> sel@[k] as int == #[trigger] spec_selected(
                        g0,
                        idx as int,
                    )[k],
                forall|k: int| 0 <= k < sel@.len() ==> #[trigger] sel@[k] < 40,
            decreases 40 - idx,
        {
            if sel.len() < 10 {
                let sy: i32 = self.voam[4 * idx] as i32 - 16;
                let size: i32 = self.sprite_size as i32;
                if sy <= self.line as i32 && (self.line as i32) < sy + size {
                    sel.push(idx);
                }
            }
            idx += 1;
        }
        let ghost sel_seq = spec_selected(g0, 40);
        proof {
            lemma_selected_props(g0, 40);
        }
        let line_base: usize = (self.line as usize) * 640;
        let mut x: usize = 0;
        while x < 160
            invariant
                x <= 160,
                line_base == g0.line * 640,
                g0.wf_base(),
                g0.line < 144,
                g0.sprite_on,
                sel_seq == spec_selected(g0, 40),
                sel@.len() == sel_seq.len(),
                forall|k: int| 0 <= k < sel@.len() ==> sel@[k] as int == #[trigger] sel_seq[k],
                forall|k: int| 0 <= k < sel@.len() ==> #[trigger] sel@[k] < 40,
                self@ == (GpuView { data: self@.data, ..g0 }),
                self@.data.len() == FRAME_BYTES,
                forall|i: int|
                    0 <= i < FRAME_BYTES ==> self@.data[i] == (if on_line_rgb(g0.line, i) && (i
                        - g0.line * 640) / 4 < x {
                        match spec_sprite_pixel(g0, (i - g0.line * 640) / 4) {
                            Some(c) => c,
                            None => g0.data[i],
                        }
                    } else {
                        g0.data[i]
                    }),
            decreases 160 - x,
        {
            let ghost old_data = self@.data;
            proof {
                assert(forall|i: int|
                    0 <= i < FRAME_BYTES ==> old_data[i] == (if on_line_rgb(g0.line, i) && (i
                        - g0.line * 640) / 4 < x as int {
                        match spec_sprite_pixel(g0, (i - g0.line * 640) / 4) {
                            Some(c) => c,
                            None => g0.data[i],
                        }
                    } else {
                        g0.data[i]
                    }));
            }
            // The highest-priority visible sprite at this pixel, if any.
            let mut best: usize = 40;
            let mut j: usize = 0;
            while j < sel.len()
                invariant
                    j <= sel@.len(),
                    x < 160,
                    g0.wf_base(),
                    g0.line < 144,
                    sel_seq == spec_selected(g0, 40),
                    sel@.len() == sel_seq.len(),
                    forall|k: int| 0 <= k < sel@.len() ==> sel@[k] as int == #[trigger] sel_seq[k],
                    forall|k: int| 0 <= k < sel@.len() ==> #[trigger] sel@[k] < 40,
                    self@ == (GpuView { data: self@.data, ..g0 }),
                    best == 40 || best < 40,
                    (best == 40 ==> spec_topmost(g0, sel_seq.take(j as int), x as int) is None),
                    (best < 40 ==> spec_topmost(g0, sel_seq.take(j as int), x as int) == Some(
                        best as int,
                    )),
                    best < 40 ==> sprite_visible(g0, best as int, x as int),
                decreases sel@.len() - j,
            {
                let i = sel[j];
                proof {
                    lemma_selected_props(g0, 40);
                    assert(sel_seq.take(j as int + 1).drop_last() =~= sel_seq.take(j as int));
                    assert(sel_seq.take(j as int + 1).last() == sel_seq[j as int]);
                }
                let sx: i32 = self.voam[4 * i + 1] as i32 - 8;
                let px: i32 = x as i32;
                let mut vis = false;
                if sx <= px && px < sx + 8 {
                    let cn = self.sprite_colnr_at(Ghost(g0), i, x);
                    if cn != 0 {
                        vis = true;
                    }
                }
                proof {
                    assert(vis == sprite_visible(g0, i as int, x as int));
                }
                if vis {
                    if best == 40 {
                        best = i;
                    } else {
                        let bx: i32 = self.voam[4 * best + 1] as i32 - 8;
                        if sx < bx || (sx == bx && i < best) {
                            best = i;
                        }
                    }
                }
                j += 1;
            }
            proof {
                assert(sel_seq.take(sel_seq.len() as int) =~= sel_seq);
            }
            if best < 40 {
                let cn = self.sprite_colnr_at(Ghost(g0), best, x);
                let color = self.pal0[cn as usize];
                let base = line_base + x * 4;
                self.data[base] = color;
                self.data[base + 1] = color;
                self.data[base + 2] = color;
            }
            proof {
                assert forall|i: int|
                    0 <= i < FRAME_BYTES implies self@.data[i] == (if on_line_rgb(g0.line, i) && (
                i - g0.line * 640) / 4 < x as int + 1 {
                    match spec_sprite_pixel(g0, (i - g0.line * 640) / 4) {
                        Some(c) => c,
                        None => g0.data[i],
                    }
                } else {
                    g0.data[i]
                }) by {
                    let lb = g0.line * 640;
                    vstd::arithmetic::div_mod::lemma_mod_multiples_vanish(160 * g0.line, 0, 4);
                    if lb <= i < lb + 640 {
                        lemma_px_bytes(lb, x as int, i);
                        if i == lb + 4 * (x as int) || i == lb + 4 * (x as int) + 1 || i == lb + 4
                            * (x as int) + 2 {
                            assert(on_line_rgb(g0.line, i));
                            assert((i - g0.line * 640) / 4 == x as int);
                        } else {
                            assert(self@.data[i] == old_data[i]);
                        }
                    } else {
                        assert(!on_line_rgb(g0.line, i));
                        assert(self@.data[i] == old_data[i]);
                    }
                }
            }
            x += 1;
        }
        proof {
            assert forall|i: int|
                0 <= i < FRAME_BYTES implies self@.data[i] == spec_sprites_over(g0).data[i] by {
                if on_line_rgb(g0.line, i) {
                    assert(g0.line * 640 <= i < g0.line * 640 + 640);
                    assert((i - g0.line * 640) / 4 < 160);
                }
            }
            assert(self@.data =~= spec_sprites_over(g0).data);
            assert(self@ =~= spec_sprites_over(g0));
        }
    }

    /// Switch the timing state machine to `mode`, performing the mode's
    /// entry work: rendering the finished line for horizontal blank,
    /// raising the frame interrupt and completion flag for vertical blank,
    /// latching the window for pixel transfer.
    fn change_mode(&mut self, mode: u8)
        requires
            old(self)@.wf_base(),
            mode <= 3,
            mode == 0 ==> old(self)@.line < 144 && old(self)@.clock >= 252 && (old(
                self,
            )@.wy_trigger ==> -1 <= old(self)@.wy_pos < old(self)@.line),
            mode == 2 ==> old(self)@.line < 144 && (old(self)@.wy_trigger ==> -1 <= old(
                self,
            )@.wy_pos < old(self)@.line),
            mode == 3 ==> old(self)@.line < 144 && (old(self)@.wy_trigger ==> -1 <= old(
                self,
            )@.wy_pos < old(self)@.line),
        ensures
            final(self)@ == spec_change_mode(old(self)@, mode as int),
            final(self)@.wf(),
    {
        self.mode = mode;
        if mode == 0 {
            self.draw_background();
            self.draw_sprites();
        } else if mode == 1 {
            self.wy_trigger = false;
            self.interrupt = self.interrupt | 0x01;
            self.updated = true;
        } else if mode == 3 {
            if !self.wy_trigger && self.line == self.winy {
                self.wy_trigger = true;
                self.wy_pos = -1;
            }
        }
        proof {
            assert(self@ =~= spec_change_mode(old(self)@, mode as int));
        }
    }

    /// Advance the timing state machine by `ticks` clocks (nothing moves
    /// while the display is off), consuming the budget in chunks of at most
    /// 80 clocks and re-evaluating the mode after each chunk.
    #[verifier::rlimit(60)]
    pub fn do_cycle(&mut self, ticks: u32)
        requires
            old(self)@.wf(),
        ensures
            final(self)@.wf(),
            final(self)@ == spec_cycle(old(self)@, ticks as int),
    {
        if !self.lcd_on {
            return ;
        }
        let mut ticksleft: u32 = ticks;
        while ticksleft > 0
            invariant
                self@.wf(),
                self@.lcd_on,
                spec_cycle(self@, ticksleft as int) == spec_cycle(old(self)@, ticks as int),
            decreases ticksleft,
        {
            let ghost gpre = self@;
            let curticks: u32 = if ticksleft >= 80 {
                80
            } else {
                ticksleft
            };
            let ghost gwrapped = (if gpre.clock + curticks >= 456 {
                let l2 = (gpre.line + 1) % 154;
                let int2 = if gpre.ly && l2 == gpre.lyc as int {
                    gpre.interrupt | 0x02
                } else {
                    gpre.interrupt
                };
                GpuView {
                    clock: gpre.clock + curticks - 456,
                    line: l2,
                    interrupt: int2,
                    ..gpre
                }
            } else {
                GpuView { clock: gpre.clock + curticks, ..gpre }
            });
            self.clock = self.clock + curticks;
            ticksleft = ticksleft - curticks;
            if self.clock >= 456 {
                self.clock = self.clock - 456;
                self.line = (self.line + 1) % 154;
                if self.ly && self.line == self.lyc {
                    self.interrupt = self.interrupt | 0x02;
                }
                proof {
                    assert(self@ =~= gwrapped);
                }
                if self.line >= 144 && self.mode != 1 {
                    self.change_mode(1);
                }
            } else {
                proof {
                    assert(self@ =~= gwrapped);
                }
            }
            proof {
                if gpre.clock + curticks >= 456 && gwrapped.line >= 144 && gwrapped.mode != 1 {
                    assert(self@ == spec_change_mode(gwrapped, 1));
                } else {
                    assert(self@ == gwrapped);
                }
            }
            if self.line < 144 {
                if self.clock < 80 {
                    if self.mode != 2 {
                        self.change_mode(2);
                    }
                } else if self.clock < 252 {
                    if self.mode != 3 {
                        self.change_mode(3);
                    }
                } else if self.mode != 0 {
                    self.change_mode(0);
                }
            }
            proof {
                assert(self@ =~= spec_chunk(gpre, curticks as int));
            }
        }
    }
}

/// The mode a visible scanline is in at dot `c`: sprite scan before dot
/// 80, pixel transfer from dot 80, horizontal blank from dot 252.
pub open spec fn mode_for(c: int) -> int {
    if c < 80 {
        2
    } else if c < 252 {
        3
    } else {
        0
    }
}

/// One timing chunk preserves the invariant and never touches the display
/// switch, the compare register or its enable bit.
pub proof fn lemma_chunk_wf(g: GpuView, c: int)
    requires
        g.wf(),
        0 <= c <= 80,
    ensures
        spec_chunk(g, c).wf(),
        spec_chunk(g, c).lcd_on == g.lcd_on,
        spec_chunk(g, c).ly == g.ly,
        spec_chunk(g, c).lyc == g.lyc,
{
}

/// Ticks that stay inside one visible scanline leave the scanline counter
/// and the interrupt bits alone, advance the dot counter, and put the mode
/// machine exactly where the dot counter says: sprite scan before dot 80,
/// pixel transfer from dot 80, horizontal blank from dot 252.
pub proof fn lemma_line_progress(g: GpuView, t: int)
    requires
        g.wf(),
        g.lcd_on,
        g.line < 144,
        0 <= t,
        g.clock + t < 456,
    ensures
        spec_cycle(g, t).wf(),
        spec_cycle(g, t).lcd_on,
        spec_cycle(g, t).ly == g.ly,
        spec_cycle(g, t).lyc == g.lyc,
        spec_cycle(g, t).line == g.line,
        spec_cycle(g, t).clock == g.clock + t,
        spec_cycle(g, t).mode == (if t == 0 {
            g.mode
        } else {
            mode_for(g.clock + t)
        }),
        spec_cycle(g, t).interrupt == g.interrupt,
        spec_cycle(g, t).updated == g.updated,
    decreases t,
{
    if t > 0 {
        let c = if t >= 80 {
            80int
        } else {
            t
        };
        lemma_chunk_wf(g, c);
        lemma_line_progress(spec_chunk(g, c), t - c);
    }
}

/// Advancing the unit is indifferent to how the budget is split, as long
/// as the first part is a whole number of 80-dot chunks.
pub proof fn lemma_cycle_split(g: GpuView, a: int, b: int)
    requires
        0 <= a,
        0 <= b,
        a % 80 == 0,
    ensures
        spec_cycle(g, a + b) == spec_cycle(spec_cycle(g, a), b),
    decreases a,
{
    if a > 0 {
        if g.lcd_on {
            lemma_cycle_split(spec_chunk(g, 80), a - 80, b);
        }
    }
}

/// One whole scanline of 456 dots from the start of a visible line: the
/// scanline counter steps by one; reaching the compare value with
/// reporting enabled raises the coincidence bit exactly there; reaching
/// line 144 enters vertical blank, raises the frame interrupt and marks
/// the frame complete, while any earlier line starts over in sprite scan.
pub proof fn lemma_scanline_advance(g: GpuView)
    requires
        g.wf(),
        g.lcd_on,
        g.line < 144,
        g.clock == 0,
    ensures
        ({
            let n = spec_cycle(g, 456);
            &&& n.wf()
            &&& n.lcd_on
            &&& n.line == g.line + 1
            &&& n.clock == 0
            &&& (g.line + 1 < 144 ==> n.mode == 2 && n.updated == g.updated)
            &&& (g.line + 1 == 144 ==> n.mode == 1 && n.updated)
            &&& ({
                let base = if g.ly && g.line + 1 == g.lyc as int {
                    g.interrupt | 0x02
                } else {
                    g.interrupt
                };
                n.interrupt == if g.line + 1 == 144 {
                    base | 0x01
                } else {
                    base
                }
            })
        }),
{
    lemma_cycle_split(g, 400, 56);
    lemma_line_progress(g, 400);
    let g400 = spec_cycle(g, 400);
    lemma_chunk_wf(g400, 56);
    assert(spec_cycle(spec_chunk(g400, 56), 0) == spec_chunk(g400, 56));
}

/// Ticks inside one vertical-blank scanline change nothing but the dot
/// counter.
pub proof fn lemma_vblank_progress(g: GpuView, t: int)
    requires
        g.wf(),
        g.lcd_on,
        144 <= g.line,
        g.mode == 1,
        0 <= t,
        g.clock + t < 456,
    ensures
        spec_cycle(g, t) == (GpuView { clock: g.clock + t, ..g }),
    decreases t,
{
    if t > 0 {
        let c = if t >= 80 {
            80int
        } else {
            t
        };
        assert(spec_chunk(g, c) =~= (GpuView { clock: g.clock + c, ..g }));
        lemma_vblank_progress(spec_chunk(g, c), t - c);
        assert(spec_cycle(g, t) =~= (GpuView { clock: g.clock + t, ..g }));
    } else {
        assert(spec_cycle(g, t) =~= (GpuView { clock: g.clock + t, ..g }));
    }
}

/// One whole scanline of 456 dots inside vertical blank: the scanline
/// counter steps on (raising the coincidence bit where it matches), the
/// mode stays vertical blank through line 153, and after line 153 the
/// counter wraps to zero and sprite scan begins again.
pub proof fn lemma_vblank_advance(g: GpuView)
    requires
        g.wf(),
        g.lcd_on,
        144 <= g.line <= 153,
        g.mode == 1,
        g.clock == 0,
    ensures
        ({
            let n = spec_cycle(g, 456);
            &&& n.wf()
            &&& n.lcd_on
            &&& n.line == (g.line + 1) % 154
            &&& n.clock == 0
            &&& n.mode == (if g.line == 153 {
                2int
            } else {
                1int
            })
            &&& n.updated == g.updated
            &&& n.interrupt == (if g.ly && (g.line + 1) % 154 == g.lyc as int {
                g.interrupt | 0x02
            } else {
                g.interrupt
            })
        }),
{
    lemma_cycle_split(g, 400, 56);
    lemma_vblank_progress(g, 400);
    let g400 = spec_cycle(g, 400);
    lemma_chunk_wf(g400, 56);
    assert(spec_cycle(spec_chunk(g400, 56), 0) == spec_chunk(g400, 56));
}

/// The coincidence bit is raised only by a line crossing: any advance that
/// stays inside the current scanline leaves every interrupt bit as it
/// was. Together with `lemma_scanline_advance` this pins the bit to the
/// single step in which the scanline counter reaches the compare value.
pub proof fn lemma_coincidence_only_on_crossing(g: GpuView, t: int)
    requires
        g.wf(),
        g.lcd_on,
        g.line < 144,
        0 <= t,
        g.clock + t < 456,
    ensures
        spec_cycle(g, t).interrupt == g.interrupt,
{
    lemma_line_progress(g, t);
}

/// Whether advancing `t` dots makes some line crossing land exactly on the
/// compare value while reporting is enabled.
pub open spec fn spec_compare_hit(g: GpuView, t: int) -> bool
    decreases t,
{
    if !g.lcd_on || t <= 0 {
        false
    } else {
        let c = if t >= 80 {
            80int
        } else {
            t
        };
        (g.clock + c >= 456 && g.ly && (g.line + 1) % 154 == g.lyc as int) || spec_compare_hit(
            spec_chunk(g, c),
            t - c,
        )
    }
}

/// The coincidence interrupt fires exactly once per arrival: over any tick
/// budget whatever, the coincidence bit is set afterwards if and only if
/// it was already set or some scanline step during the advance landed
/// exactly on the compare value with reporting enabled. In particular,
/// ticks that keep the counter on the compare line raise nothing more.
pub proof fn lemma_coincidence_exactly_on_arrival(g: GpuView, t: int)
    requires
        g.wf(),
    ensures
        spec_cycle(g, t).interrupt & 0x02 == (if g.interrupt & 0x02 != 0 || spec_compare_hit(
            g,
            t,
        ) {
            0x02u8
        } else {
            0u8
        }),
    decreases t,
{
    assert(forall|x: u8| #[trigger] ((x | 0x01u8) & 0x02u8) == x & 0x02u8) by (bit_vector);
    assert(forall|x: u8| #[trigger] ((x | 0x02u8) & 0x02u8) == 0x02u8) by (bit_vector);
    assert(forall|x: u8| (#[trigger] (x & 0x02u8)) == 0 || x & 0x02u8 == 0x02u8) by (bit_vector);
    if g.lcd_on && t > 0 {
        let c = if t >= 80 {
            80int
        } else {
            t
        };
        lemma_chunk_wf(g, c);
        lemma_coincidence_exactly_on_arrival(spec_chunk(g, c), t - c);
    }
}

/// Clearing the display-enable bit blanks the whole framebuffer to the
/// lightest shade, resets the scanline and dot counters, forces horizontal
/// blank, drops the window latch and signals the completed (blank) frame.
pub proof fn lemma_lcd_disable_blanks(g: GpuView, v: u8)
    requires
        g.wf(),
        v & 0x80 != 0x80,
    ensures
        ({
            let n = spec_gpu_write(g, 0xFF40, v);
            &&& n.data == Seq::new(FRAME_BYTES as nat, |i: int| 255u8)
            &&& n.line == 0
            &&& n.clock == 0
            &&& n.mode == 0
            &&& !n.wy_trigger
            &&& n.updated
            &&& !n.lcd_on
        }),
{
}

/// The sprite chosen for a pixel is a visible candidate of highest
/// priority: no other visible candidate has a smaller X, nor an equal X
/// with a smaller table index; and a pixel gets no sprite exactly when no
/// candidate is visible there.
pub proof fn lemma_topmost_priority(g: GpuView, sel: Seq<int>, px: int)
    ensures
        spec_topmost(g, sel, px) is None ==> forall|k: int|
            0 <= k < sel.len() ==> !sprite_visible(g, #[trigger] sel[k], px),
        spec_topmost(g, sel, px) matches Some(j) ==> sprite_visible(g, j, px) && (exists|k: int|
            0 <= k < sel.len() && sel[k] == j) && (forall|k: int|
            0 <= k < sel.len() && sprite_visible(g, #[trigger] sel[k], px) ==> !sprite_before(
                g,
                sel[k],
                j,
            ) || sel[k] == j),
{
    lemma_topmost_priority_rec(g, sel, px);
}

/// The two documented ordering rules, pairwise: of two selected sprites
/// both contributing an opaque pixel at `px`, one of higher priority than
/// the other (smaller X; or equal X and smaller attribute-table index),
/// the pixel does show a sprite, and it is never the lower-priority one.
pub proof fn lemma_sprite_pair_order(g: GpuView, px: int, i: int, j: int)
    requires
        g.sprite_on,
        exists|k: int|
            0 <= k < spec_selected(g, 40).len() && #[trigger] spec_selected(g, 40)[k] == i,
        exists|k: int|
            0 <= k < spec_selected(g, 40).len() && #[trigger] spec_selected(g, 40)[k] == j,
        sprite_visible(g, i, px),
        sprite_visible(g, j, px),
        sprite_before(g, i, j),
    ensures
        spec_sprite_pixel(g, px) is Some,
        spec_topmost(g, spec_selected(g, 40), px) != Some(j),
{
    let sel = spec_selected(g, 40);
    lemma_topmost_priority(g, sel, px);
    let ki = choose|k: int| 0 <= k < sel.len() && sel[k] == i;
    assert(sel[ki] == i);
    assert(i != j);
}

proof fn lemma_topmost_priority_rec(g: GpuView, sel: Seq<int>, px: int)
    ensures
        spec_topmost(g, sel, px) is None ==> forall|k: int|
            0 <= k < sel.len() ==> !sprite_visible(g, #[trigger] sel[k], px),
        spec_topmost(g, sel, px) matches Some(j) ==> sprite_visible(g, j, px) && (exists|k: int|
            0 <= k < sel.len() && sel[k] == j) && (forall|k: int|
            0 <= k < sel.len() && sprite_visible(g, #[trigger] sel[k], px) ==> !sprite_before(
                g,
                sel[k],
                j,
            ) || sel[k] == j),
    decreases sel.len(),
{
    if sel.len() > 0 {
        lemma_topmost_priority_rec(g, sel.drop_last(), px);
        assert(forall|k: int| 0 <= k < sel.len() - 1 ==> #[trigger] sel[k] == sel.drop_last()[k]);
        let top = spec_topmost(g, sel, px);
        if top is Some {
            let j = top->Some_0;
            if sel.last() == j && sprite_visible(g, j, px) {
                assert(sel[sel.len() - 1] == j);
            }
        }
    }
}

/// Every index the sprite scan selects lies below `n`, covers the current
/// line, and at most ten are selected.
pub proof fn lemma_selected_props(g: GpuView, n: int)
    ensures
        spec_selected(g, n).len() <= 10,
        forall|k: int|
            0 <= k < spec_selected(g, n).len() ==> 0 <= #[trigger] spec_selected(g, n)[k] < n,
        forall|k: int|
            0 <= k < spec_selected(g, n).len() ==> sprite_covers_line(
                g,
                #[trigger] spec_selected(g, n)[k],
            ),
    decreases n,
{
    if n > 0 {
        lemma_selected_props(g, n - 1);
    }
}

} // verus!
