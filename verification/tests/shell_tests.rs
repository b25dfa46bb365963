use beyond_os::console::{Console as ConsoleTrait, TextConsole};
use beyond_os::graphics::{BeyondFramebuffer, Color};
use beyond_os::interrupts::InterruptIndex;
use beyond_os::mem::{MemRegion, MemRegionKind};
use beyond_os::shell::{alloc_frame, show_memory_map, Shell, ShellCommands};

fn console() -> TextConsole<BeyondFramebuffer> {
    let fb = BeyondFramebuffer::with_size(360, 288, 360, 4).unwrap();
    ConsoleTrait::new(fb, Color::white(), Color::black())
}

#[test]
fn command_keys() {
    assert_eq!(ShellCommands::enter(), '\n');
    assert_eq!(ShellCommands::backspace(), '\u{0008}');
}

#[test]
fn line_editing() {
    let mut shell = Shell::new(console(), Vec::new(), 0);
    assert_eq!(shell.pop_char(), None);
    shell.push_char('h');
    shell.push_char('i');
    assert_eq!(shell.length, 2);
    assert_eq!(shell.pop_char(), Some('i'));
    assert_eq!(shell.pop_char(), Some('h'));
    assert_eq!(shell.pop_char(), None);
}

#[test]
fn line_buffer_caps_at_capacity() {
    let mut shell = Shell::new(console(), Vec::new(), 0);
    for _ in 0..200 {
        shell.push_char('x');
    }
    assert_eq!(shell.length, 128);
}

#[test]
fn memory_report_goes_to_console() {
    let regions = vec![MemRegion { start: 0, end: 0x20000, kind: MemRegionKind::Usable }];
    let mut c = console();
    show_memory_map(&mut c, &regions);
}

#[test]
fn shell_alloc_frame() {
    let regions = vec![MemRegion { start: 0x5000, end: 0x8000, kind: MemRegionKind::Usable }];
    assert_eq!(alloc_frame(regions), Some(0x5000));
}

#[test]
fn interrupt_vectors() {
    assert_eq!(InterruptIndex::Timer.as_u8(), 32);
    assert_eq!(InterruptIndex::Keyboard.as_u8(), 33);
}
