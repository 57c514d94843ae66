use rgba_core::arm7tdmi::BusInterface;
use rgba_core::{Button, Gba, SCREEN_HEIGHT, SCREEN_WIDTH};

const DISPCNT_ADDR: u32 = 0x0400_0000;
const KEYINPUT_ADDR: u32 = 0x0400_0130;
const VRAM_ADDR: u32 = 0x0600_0000;
const MODE3_BG2: u16 = 0x0403;

const BLOCK_W: usize = 40;
const BLOCK_H: usize = 50;
const GAP_X: usize = 8;
const GAP_Y: usize = 20;
const MARGIN_X: usize = 8;
const MARGIN_Y: usize = 20;
const BORDER: usize = 2;

const BG_COLOR: u16 = 0x1084;
const DARK_COLOR: u16 = 0x294A;

const BUTTON_COLORS: [u16; 10] = [
    0x001F, 0x03E0, 0x7C00, 0x7FFF, 0x03FF, 0x7C1F, 0x7FE0, 0x2DEB, 0x56B5, 0x4E73,
];

const BUTTON_ORDER: [Button; 10] = [
    Button::A,
    Button::B,
    Button::Select,
    Button::Start,
    Button::Right,
    Button::Left,
    Button::Up,
    Button::Down,
    Button::R,
    Button::L,
];

fn block_origin(col: usize, row: usize) -> (usize, usize) {
    (MARGIN_X + col * (BLOCK_W + GAP_X), MARGIN_Y + row * (BLOCK_H + GAP_Y))
}

fn idle_rom(words: usize) -> Vec<u8> {
    let mut rom = Vec::with_capacity(words * 4);
    for _ in 0..words {
        rom.extend_from_slice(&0xe3a0_0000u32.to_le_bytes());
    }
    rom
}

fn write_vram_pixel(gba: &mut Gba, x: usize, y: usize, color: u16) {
    let addr = VRAM_ADDR + ((y * SCREEN_WIDTH + x) as u32 * 2);
    gba.bus_mut().write_16(addr, color);
}

fn paint_dashboard(gba: &mut Gba, pressed_mask: u16) {
    for y in 0..SCREEN_HEIGHT {
        for x in 0..SCREEN_WIDTH {
            write_vram_pixel(gba, x, y, BG_COLOR);
        }
    }
    for (i, &button) in BUTTON_ORDER.iter().enumerate() {
        let (bx, by) = block_origin(i % 5, i / 5);
        let is_pressed = (pressed_mask & button.mask()) != 0;
        let fill = if is_pressed { BUTTON_COLORS[i] } else { DARK_COLOR };
        let border_color = if is_pressed { 0x7FFF } else { 0x3DEF };
        for dy in 0..BLOCK_H {
            for dx in 0..BLOCK_W {
                let px = bx + dx;
                let py = by + dy;
                if px >= SCREEN_WIDTH || py >= SCREEN_HEIGHT {
                    continue;
                }
                let on_border =
                    dx < BORDER || dx >= BLOCK_W - BORDER || dy < BORDER || dy >= BLOCK_H - BORDER;
                let color = if on_border { border_color } else { fill };
                write_vram_pixel(gba, px, py, color);
            }
        }
    }
}

fn run_one_frame(gba: &mut Gba) {
    for _ in 0..300_000 {
        gba.step();
        if gba.ppu_mut().take_frame_ready() {
            return;
        }
    }
    panic!("frame not produced within step limit");
}

fn read_fb(gba: &Gba, x: usize, y: usize) -> u16 {
    gba.ppu().framebuffer()[y * SCREEN_WIDTH + x]
}

fn button_center(index: usize) -> (usize, usize) {
    let (bx, by) = block_origin(index % 5, index / 5);
    (bx + BLOCK_W / 2, by + BLOCK_H / 2)
}

fn dashboard_gba() -> Gba {
    let mut gba = Gba::with_rom(idle_rom(200_000));
    gba.cpu_mut().set_pc(0x0800_0000);
    gba.bus_mut().write_16(DISPCNT_ADDR, MODE3_BG2);
    gba
}

#[test]
fn keypad_visual_idle() {
    let mut gba = dashboard_gba();
    paint_dashboard(&mut gba, 0);
    run_one_frame(&mut gba);

    let keyinput = gba.bus().io().read_16(KEYINPUT_ADDR);
    assert_eq!(keyinput, 0x03FF);

    for i in 0..10 {
        let (cx, cy) = button_center(i);
        assert_eq!(read_fb(&gba, cx, cy), DARK_COLOR, "button {} should be dark when idle", i);
    }
}

#[test]
fn keypad_visual_a_b_start() {
    let mut gba = dashboard_gba();
    gba.set_button_pressed(Button::A, true);
    gba.set_button_pressed(Button::B, true);
    gba.set_button_pressed(Button::Start, true);

    let keyinput = gba.bus().io().read_16(KEYINPUT_ADDR);
    assert_eq!(keyinput & Button::A.mask(), 0);
    assert_eq!(keyinput & Button::B.mask(), 0);
    assert_eq!(keyinput & Button::Start.mask(), 0);
    assert_ne!(keyinput & Button::Up.mask(), 0);
    assert_ne!(keyinput & Button::L.mask(), 0);

    let pressed_mask = (!keyinput) & 0x03FF;
    paint_dashboard(&mut gba, pressed_mask);
    run_one_frame(&mut gba);

    let (cx, cy) = button_center(0);
    assert_eq!(read_fb(&gba, cx, cy), BUTTON_COLORS[0]);
    let (cx, cy) = button_center(1);
    assert_eq!(read_fb(&gba, cx, cy), BUTTON_COLORS[1]);
    let (cx, cy) = button_center(3);
    assert_eq!(read_fb(&gba, cx, cy), BUTTON_COLORS[3]);
    let (cx, cy) = button_center(2);
    assert_eq!(read_fb(&gba, cx, cy), DARK_COLOR);
    let (cx, cy) = button_center(6);
    assert_eq!(read_fb(&gba, cx, cy), DARK_COLOR);
}

#[test]
fn keypad_visual_dpad() {
    let mut gba = dashboard_gba();
    gba.set_button_pressed(Button::Up, true);
    gba.set_button_pressed(Button::Down, true);
    gba.set_button_pressed(Button::Left, true);
    gba.set_button_pressed(Button::Right, true);

    let keyinput = gba.bus().io().read_16(KEYINPUT_ADDR);
    let pressed_mask = (!keyinput) & 0x03FF;
    assert_eq!(pressed_mask & Button::Up.mask(), Button::Up.mask());
    assert_eq!(pressed_mask & Button::Down.mask(), Button::Down.mask());
    assert_eq!(pressed_mask & Button::Left.mask(), Button::Left.mask());
    assert_eq!(pressed_mask & Button::Right.mask(), Button::Right.mask());
    assert_eq!(pressed_mask & Button::A.mask(), 0);

    paint_dashboard(&mut gba, pressed_mask);
    run_one_frame(&mut gba);

    for &i in &[4usize, 5, 6, 7] {
        let (cx, cy) = button_center(i);
        assert_eq!(read_fb(&gba, cx, cy), BUTTON_COLORS[i], "D-pad button {} should be bright", i);
    }
    for &i in &[0usize, 1, 2, 3, 8, 9] {
        let (cx, cy) = button_center(i);
        assert_eq!(read_fb(&gba, cx, cy), DARK_COLOR, "button {} should be dark", i);
    }
}

#[test]
fn keypad_visual_all_pressed() {
    let mut gba = dashboard_gba();
    for &button in &BUTTON_ORDER {
        gba.set_button_pressed(button, true);
    }

    let keyinput = gba.bus().io().read_16(KEYINPUT_ADDR);
    assert_eq!(keyinput, 0x0000);

    let pressed_mask = (!keyinput) & 0x03FF;
    paint_dashboard(&mut gba, pressed_mask);
    run_one_frame(&mut gba);

    for i in 0..10 {
        let (cx, cy) = button_center(i);
        assert_eq!(read_fb(&gba, cx, cy), BUTTON_COLORS[i], "button {} should be bright", i);
    }
}

#[test]
fn keypad_visual_release_updates_display() {
    let mut gba = dashboard_gba();

    gba.set_button_pressed(Button::A, true);
    let keyinput = gba.bus().io().read_16(KEYINPUT_ADDR);
    paint_dashboard(&mut gba, (!keyinput) & 0x03FF);
    run_one_frame(&mut gba);

    let (ax, ay) = button_center(0);
    assert_eq!(read_fb(&gba, ax, ay), BUTTON_COLORS[0]);

    gba.set_button_pressed(Button::A, false);
    let keyinput = gba.bus().io().read_16(KEYINPUT_ADDR);
    assert_ne!(keyinput & Button::A.mask(), 0);

    paint_dashboard(&mut gba, (!keyinput) & 0x03FF);
    run_one_frame(&mut gba);

    assert_eq!(read_fb(&gba, ax, ay), DARK_COLOR);
}
