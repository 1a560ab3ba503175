//! The graphics unit observed through its registers and framebuffer:
//! scanline timing, the coincidence interrupt, background and sprite
//! rendering, and the immediate blank on display disable.
use gb::gpu::Gpu;

fn mode(g: &Gpu) -> u8 {
    g.read_byte(0xFF41) & 0x03
}

fn line(g: &Gpu) -> u8 {
    g.read_byte(0xFF44)
}

/// Every visible scanline runs sprite scan, then pixel transfer entered at
/// dot 80, then horizontal blank entered at dot 252; line 144 enters
/// vertical blank, which holds through line 153, after which the counter
/// wraps to zero and sprite scan begins again.
#[test]
fn scanline_mode_sequence() {
    let mut g = Gpu::new();
    g.write_byte(0xFF40, 0x80); // display on
    for l in 0..144u8 {
        assert_eq!(line(&g), l);
        g.do_cycle(79); // dot 79: still sprite scan
        assert_eq!(mode(&g), 2);
        g.do_cycle(1); // dot 80: pixel transfer begins
        assert_eq!(mode(&g), 3);
        g.do_cycle(172); // dot 252: horizontal blank begins
        assert_eq!(mode(&g), 0);
        g.do_cycle(204); // dot 456: the next line
    }
    assert_eq!(line(&g), 144);
    assert_eq!(mode(&g), 1);
    assert!(g.updated);
    assert_eq!(g.interrupt & 0x01, 0x01);
    for _ in 144..153 {
        g.do_cycle(456);
        assert_eq!(mode(&g), 1);
    }
    assert_eq!(line(&g), 153);
    g.do_cycle(456);
    assert_eq!(line(&g), 0);
    assert_eq!(mode(&g), 2);
}

/// Nothing moves while the display is off.
#[test]
fn display_off_freezes_timing() {
    let mut g = Gpu::new();
    assert_eq!(line(&g), 0);
    g.do_cycle(100_000);
    assert_eq!(line(&g), 0);
    assert_eq!(g.clock, 0);
}

/// The coincidence bit is raised exactly when the scanline counter reaches
/// the compare value, and not again while the counter stays there.
#[test]
fn coincidence_interrupt_fires_once() {
    let mut g = Gpu::new();
    g.write_byte(0xFF40, 0x80);
    g.write_byte(0xFF45, 2); // compare with scanline 2
    g.write_byte(0xFF41, 0x40); // enable coincidence reporting
    g.do_cycle(456);
    assert_eq!(g.interrupt & 0x02, 0); // line 1: no match yet
    g.do_cycle(456);
    assert_eq!(g.interrupt & 0x02, 0x02); // reached line 2
    g.interrupt = 0;
    g.do_cycle(400); // stays within line 2
    assert_eq!(g.interrupt, 0);
    g.do_cycle(56); // crosses to line 3: no new match
    assert_eq!(g.interrupt & 0x02, 0);
}

/// Without the enable bit the match raises nothing.
#[test]
fn coincidence_respects_enable_bit() {
    let mut g = Gpu::new();
    g.write_byte(0xFF40, 0x80);
    g.write_byte(0xFF45, 1);
    g.do_cycle(456);
    assert_eq!(line(&g), 1);
    assert_eq!(g.interrupt & 0x02, 0);
}

/// A background tile shows up in the framebuffer with its palette shade.
#[test]
fn background_tile_renders() {
    let mut g = Gpu::new();
    g.write_byte(0xFF40, 0x80); // display on, low tile base: signed indexing
    g.write_byte(0xFF47, 0xE4); // palette: shades 255, 192, 96, 0
    // tilemap entry 0 stays 0; with the signed base, tile 0 lives at 0x9000.
    // top row of that tile: low bit-plane all ones, colour index 1.
    g.write_byte(0x9000, 0xFF);
    g.do_cycle(300); // into horizontal blank: line 0 is composed
    assert_eq!(mode(&g), 0);
    assert_eq!(g.data[0], 192); // pixel (0,0) red channel
    assert_eq!(g.data[1], 192);
    assert_eq!(g.data[2], 192);
    assert_eq!(g.data[7 * 4], 192); // still inside the first tile row
}

fn sprite_gpu() -> Gpu {
    let mut g = Gpu::new();
    g.write_byte(0xFF40, 0x82); // display on, sprites on
    g.write_byte(0xFF48, 0xE4); // sprite palette: 255, 192, 96, 0
    // tile 1: colour index 1 everywhere (low plane set) -> shade 192
    // tile 2: colour index 2 everywhere (high plane set) -> shade 96
    for row in 0..8u16 {
        g.write_byte(0x8010 + row * 2, 0xFF);
        g.write_byte(0x8020 + row * 2 + 1, 0xFF);
    }
    g
}

fn set_sprite(g: &mut Gpu, index: u16, y: u8, x: u8, tile: u8) {
    let base = 0xFE00 + index * 4;
    g.write_byte(base, y);
    g.write_byte(base + 1, x);
    g.write_byte(base + 2, tile);
    g.write_byte(base + 3, 0);
}

/// Two overlapping sprites at the same X: the lower table index wins.
#[test]
fn sprite_tie_goes_to_lower_index() {
    let mut g = sprite_gpu();
    set_sprite(&mut g, 3, 16, 18, 1); // covers line 0, screen X 10..17, shade 192
    set_sprite(&mut g, 7, 16, 18, 2); // same place, shade 96
    g.do_cycle(300); // line 0 composed at horizontal blank
    assert_eq!(g.data[10 * 4], 192);
    assert_eq!(g.data[17 * 4], 192);
}

/// Overlapping sprites at different X: the smaller X wins, whatever the
/// table order says.
#[test]
fn sprite_smaller_x_wins() {
    let mut g = sprite_gpu();
    set_sprite(&mut g, 3, 16, 20, 1); // X 12..19, shade 192
    set_sprite(&mut g, 7, 16, 18, 2); // X 10..17, shade 96
    g.do_cycle(300);
    assert_eq!(g.data[12 * 4], 96); // overlap: sprite at X 10 on top
    assert_eq!(g.data[10 * 4], 96); // alone
    assert_eq!(g.data[18 * 4], 192); // past the leftmost sprite
}

/// Transparent sprite pixels leave the background visible. (Writing the
/// sprite palette register recomputes both shade tables, so background
/// colour 0 shows as the lightest shade here.)
#[test]
fn sprite_colour_zero_is_transparent() {
    let mut g = sprite_gpu();
    set_sprite(&mut g, 0, 16, 18, 3); // tile 3 is all zeros: fully transparent
    g.do_cycle(300);
    assert_eq!(g.data[10 * 4], 255); // the untouched background shade
}

/// A vertically flipped sprite samples its tile upside down.
#[test]
fn sprite_vertical_flip() {
    let mut g = sprite_gpu();
    // tile 4: only the top row is colour 1
    g.write_byte(0x8040, 0xFF);
    let base = 0xFE00;
    g.write_byte(base, 16); // covers lines 0..7
    g.write_byte(base + 1, 18);
    g.write_byte(base + 2, 4);
    g.write_byte(base + 3, 0x40); // vertical flip: the mark moves to line 7
    g.do_cycle(300);
    assert_eq!(g.data[10 * 4], 255); // line 0 now blank
    for _ in 0..7 {
        g.do_cycle(456);
    }
    assert_eq!(line(&g), 7);
    assert_eq!(g.data[7 * 640 + 10 * 4], 192); // the flipped row
}

/// Disabling the display immediately blanks the whole framebuffer to the
/// lightest shade and resets the timing counters.
#[test]
fn display_disable_blanks_frame() {
    let mut g = Gpu::new();
    g.write_byte(0xFF40, 0x80);
    g.write_byte(0xFF47, 0x03); // darkest shade for colour 0: lines render dark
    g.do_cycle(456 * 5 + 300);
    assert_eq!(line(&g), 5);
    assert_eq!(g.data[0], 0); // rendered dark
    g.updated = false;
    g.write_byte(0xFF40, 0x00); // display off
    assert_eq!(line(&g), 0);
    assert_eq!(g.clock, 0);
    assert_eq!(mode(&g), 0);
    assert!(g.updated);
    for k in [0usize, 1, 2, 3, 12345, 92159] {
        assert_eq!(g.data[k], 255);
    }
}

/// The window overlays the background from its X coordinate on, reading
/// its own tilemap, once the scanline has reached the window's Y.
#[test]
fn window_overlays_background() {
    let mut g = Gpu::new();
    g.write_byte(0xFF40, 0xC0); // display on, window tilemap at 0x9C00
    g.write_byte(0xFF47, 0xE4); // shades 255, 192, 96, 0
    g.write_byte(0xFF4B, 87); // window starts at screen X 80
    // window tilemap: the first row of entries names tile 1 ...
    for k in 0..21u16 {
        g.write_byte(0x9C00 + k, 1);
    }
    // ... whose top row is colour 1 (the signed tile base puts it at 0x9010)
    g.write_byte(0x9010, 0xFF);
    g.do_cycle(300); // line 0 composed
    assert_eq!(g.data[0], 255); // background (tile 0, all zeros)
    assert_eq!(g.data[79 * 4], 255); // last background pixel
    assert_eq!(g.data[80 * 4], 192); // first window pixel
    assert_eq!(g.data[159 * 4], 192);
}

/// Horizontal scroll shifts which tile pixels land on screen.
#[test]
fn background_scroll_x() {
    let mut g = Gpu::new();
    g.write_byte(0xFF40, 0x80);
    g.write_byte(0xFF47, 0xE4);
    g.write_byte(0xFF4B, 200); // keep the window off screen
    g.write_byte(0xFF43, 4); // scroll X by 4
    // tile 0 (signed base): top row pixels 0-3 are colour 1, 4-7 colour 0
    g.write_byte(0x9000, 0xF0);
    g.do_cycle(300);
    assert_eq!(g.data[0], 255); // shows tile pixel 4: colour 0
    assert_eq!(g.data[4 * 4], 192); // next tile's pixel 0: colour 1
}
