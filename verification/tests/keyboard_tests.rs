use beyond_os::keyboard::{
    KeyboardBuffer, on_scancode, pop_scancode, scancode_to_char, LEFT_SHIFT, RIGHT_SHIFT,
    RELEASE_MASK,
};

#[test]
fn buffer_is_fifo() {
    let mut kb = KeyboardBuffer::new();
    assert_eq!(kb.pop(), None);
    kb.push(1);
    kb.push(2);
    kb.push(3);
    assert_eq!(kb.pop(), Some(1));
    assert_eq!(kb.pop(), Some(2));
    assert_eq!(kb.pop(), Some(3));
    assert_eq!(kb.pop(), None);
}

#[test]
fn buffer_wraps_and_drops_when_full() {
    let mut kb = KeyboardBuffer::new();
    // capacity is 255: one slot distinguishes full from empty
    for i in 0..255u32 {
        kb.push((i % 251) as u8);
    }
    // a 256th push is dropped
    kb.push(0xee);
    assert_eq!(kb.pop(), Some(0));
    // one slot freed: the next push is kept again
    kb.push(0xdd);
    let mut last = 0;
    while let Some(v) = kb.pop() {
        last = v;
    }
    assert_eq!(last, 0xdd);
}

#[test]
fn scancode_helpers_queue_and_drain() {
    let mut kb = KeyboardBuffer::new();
    on_scancode(&mut kb, 0x1e);
    on_scancode(&mut kb, 0x30);
    assert_eq!(pop_scancode(&mut kb), Some(0x1e));
    assert_eq!(pop_scancode(&mut kb), Some(0x30));
    assert_eq!(pop_scancode(&mut kb), None);
}

#[test]
fn decode_letters_and_digits() {
    let mut shift = false;
    assert_eq!(scancode_to_char(&mut shift, 0x1e), Some('a'));
    assert_eq!(scancode_to_char(&mut shift, 0x02), Some('1'));
    assert_eq!(scancode_to_char(&mut shift, 0x39), Some(' '));
    assert_eq!(scancode_to_char(&mut shift, 0x1c), Some('\n'));
    assert_eq!(scancode_to_char(&mut shift, 0x0e), Some('\u{0008}'));
    assert_eq!(scancode_to_char(&mut shift, 0xf0), None);
}

#[test]
fn shift_state_changes_decoding() {
    let mut shift = false;
    // shift pressed: no character, but the state flips
    assert_eq!(scancode_to_char(&mut shift, LEFT_SHIFT), None);
    assert!(shift);
    assert_eq!(scancode_to_char(&mut shift, 0x1e), Some('A'));
    assert_eq!(scancode_to_char(&mut shift, 0x02), Some('!'));
    // shift released
    assert_eq!(scancode_to_char(&mut shift, LEFT_SHIFT | RELEASE_MASK), None);
    assert!(!shift);
    assert_eq!(scancode_to_char(&mut shift, 0x1e), Some('a'));
    // the right shift works the same way
    assert_eq!(scancode_to_char(&mut shift, RIGHT_SHIFT), None);
    assert!(shift);
    assert_eq!(scancode_to_char(&mut shift, 0x33), Some('<'));
    assert_eq!(scancode_to_char(&mut shift, RIGHT_SHIFT | RELEASE_MASK), None);
    assert!(!shift);
}
