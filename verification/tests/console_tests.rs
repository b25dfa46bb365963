use beyond_os::console::{Console as ConsoleTrait, ConsoleOut, TextConsole};
use beyond_os::graphics::{BeyondFramebuffer, Color, Console, FrameBuffer, Renderer};

#[test]
fn color_constants() {
    assert_eq!(Color::white(), Color { r: 0xff, g: 0xff, b: 0xff });
    assert_eq!(Color::black(), Color { r: 0, g: 0, b: 0 });
    assert_eq!(Color::deep_blue(), Color { r: 0x10, g: 0x40, b: 0x60 });
}

#[test]
fn framebuffer_pixels_round_trip() {
    let mut fb = BeyondFramebuffer::with_size(64, 32, 80, 4).unwrap();
    assert_eq!(fb.width(), 64);
    assert_eq!(fb.height(), 32);
    assert_eq!(fb.stride(), 80);
    assert_eq!(fb.bpp(), 4);

    let c = Color { r: 1, g: 2, b: 3 };
    fb.put_pixel(10, 20, c);
    assert_eq!(fb.get_pixel(10, 20), c);
    // neighbours untouched
    assert_eq!(fb.get_pixel(11, 20), Color::black());
    // out-of-bounds writes are ignored, reads are black
    fb.put_pixel(64, 0, c);
    assert_eq!(fb.get_pixel(64, 0), Color::black());
}

#[test]
fn framebuffer_rejects_bad_geometry() {
    assert!(BeyondFramebuffer::with_size(100, 10, 80, 4).is_none()); // width > stride
    assert!(BeyondFramebuffer::with_size(10, 10, 10, 2).is_none()); // bad bpp
}

#[test]
fn glyphs_exist_for_drawable_characters() {
    assert!(Renderer::glyph_for('A').is_some());
    assert!(Renderer::glyph_for('z').is_some());
    assert!(Renderer::glyph_for('0').is_some());
    assert!(Renderer::glyph_for('?').is_some());
    assert!(Renderer::glyph_for(' ').is_some());
    assert!(Renderer::glyph_for('\n').is_none());
    assert!(Renderer::glyph_for('\u{00e9}').is_none());
}

#[test]
fn draw_char_sets_scaled_pixels() {
    let mut fb = BeyondFramebuffer::with_size(32, 32, 32, 3).unwrap();
    let fg = Color::white();
    // one bit set top-left: a 2x2 block is drawn at the origin
    let glyph: [u8; 8] = [0x80, 0, 0, 0, 0, 0, 0, 0];
    Renderer::draw_char(&mut fb, 0, 0, &glyph, fg);
    assert_eq!(fb.get_pixel(0, 0), fg);
    assert_eq!(fb.get_pixel(1, 1), fg);
    assert_eq!(fb.get_pixel(2, 0), Color::black());
    assert_eq!(fb.get_pixel(0, 2), Color::black());
}

#[test]
fn graphics_console_writes() {
    let fb = BeyondFramebuffer::with_size(160, 80, 160, 4).unwrap();
    let mut console = Console::new(fb, Color::white(), Color::black());
    console.write_str("Hi");
    console.write_line(" there");
    console.clear();
}

#[test]
fn text_console_writes_and_scrolls() {
    let fb = BeyondFramebuffer::with_size(180, 144, 180, 4).unwrap();
    // 10 columns by 4 rows of 18x36 cells
    let mut console: TextConsole<BeyondFramebuffer> =
        ConsoleTrait::new(fb, Color::white(), Color::deep_blue());
    console.write_string("Hello World");
    console.newline();
    console.write_line("line");
    console.backspace();
    for _ in 0..6 {
        console.write_charactor('\n');
    }
    console.write_charactor('x');
    console.scroll_up();
    console.erase_cell();
    console.clear();
}
