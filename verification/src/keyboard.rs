//! Keyboard scancode buffering and set-1 scancode decoding.

use vstd::prelude::*;

verus! {

pub const KB_BUF_SIZE: usize = 256;

/// Fixed-size scancode ring buffer; pushing onto a full buffer drops the
/// scancode.
pub struct KeyboardBuffer {
    /// Backing storage.
    pub buf: [u8; 256],
    /// Index one past the newest queued scancode.
    pub head: usize,
    /// Index of the oldest queued scancode.
    pub tail: usize,
}

impl KeyboardBuffer {
    /// Indices stay inside the backing array.
    pub open spec fn spec_wf(&self) -> bool {
        self.head < 256 && self.tail < 256
    }

    /// Queued scancodes, oldest first.
    pub open spec fn contents(&self) -> Seq<u8> {
        if self.head >= self.tail {
            self.buf@.subrange(self.tail as int, self.head as int)
        } else {
            self.buf@.subrange(self.tail as int, 256) + self.buf@.subrange(0, self.head as int)
        }
    }

    /// Create an empty buffer.
    pub fn new() -> (r: Self)
        ensures
            r.spec_wf(),
            r.contents() == Seq::<u8>::empty(),
    {
        Self { buf: [0; 256], head: 0, tail: 0 }
    }

    /// Append a scancode; a full buffer (255 queued) drops it.
    pub fn push(&mut self, scancode: u8)
        requires
            old(self).spec_wf(),
        ensures
            final(self).spec_wf(),
            if old(self).contents().len() == 255 {
                final(self).contents() == old(self).contents()
            } else {
                final(self).contents() == old(self).contents().push(scancode)
            },
    {
        let next_head = (self.head + 1) % KB_BUF_SIZE;
        if next_head != self.tail {
            self.buf[self.head] = scancode;
            self.head = next_head;
            proof {
                if old(self).head >= old(self).tail {
                    if old(self).head < 255 {
                        assert(self.contents() =~= old(self).contents().push(scancode));
                    } else {
                        assert(self.contents() =~= old(self).contents().push(scancode));
                    }
                } else {
                    assert(self.contents() =~= old(self).contents().push(scancode));
                }
            }
        } else {
            proof {
                if old(self).head >= old(self).tail {
                    assert(old(self).contents().len() == 255);
                } else {
                    assert(old(self).contents().len() == 255);
                }
            }
        }
    }

    /// Take the oldest scancode, or `None` when the buffer is empty.
    pub fn pop(&mut self) -> (r: Option<u8>)
        requires
            old(self).spec_wf(),
        ensures
            final(self).spec_wf(),
            match r {
                None => old(self).contents().len() == 0 && *final(self) == *old(self),
                Some(v) => {
                    &&& old(self).contents().len() > 0
                    &&& v == old(self).contents()[0]
                    &&& final(self).contents() == old(self).contents().drop_first()
                },
            },
    {
        if self.head == self.tail {
            None
        } else {
            let val = self.buf[self.tail];
            self.tail = (self.tail + 1) % KB_BUF_SIZE;
            proof {
                if old(self).head > old(self).tail {
                    assert(self.contents() =~= old(self).contents().drop_first());
                } else {
                    assert(self.contents() =~= old(self).contents().drop_first());
                }
            }
            Some(val)
        }
    }
}

/// Queue a scancode reported by the keyboard interrupt.
pub fn on_scancode(kb: &mut KeyboardBuffer, scancode: u8)
    requires
        old(kb).spec_wf(),
    ensures
        final(kb).spec_wf(),
        if old(kb).contents().len() == 255 {
            final(kb).contents() == old(kb).contents()
        } else {
            final(kb).contents() == old(kb).contents().push(scancode)
        },
{
    kb.push(scancode);
}

/// Take the oldest queued scancode.
pub fn pop_scancode(kb: &mut KeyboardBuffer) -> (r: Option<u8>)
    requires
        old(kb).spec_wf(),
    ensures
        final(kb).spec_wf(),
        match r {
            None => old(kb).contents().len() == 0 && *final(kb) == *old(kb),
            Some(v) => {
                &&& old(kb).contents().len() > 0
                &&& v == old(kb).contents()[0]
                &&& final(kb).contents() == old(kb).contents().drop_first()
            },
        },
{
    kb.pop()
}

pub const LEFT_SHIFT: u8 = 0x2a;
pub const RIGHT_SHIFT: u8 = 0x36;
pub const RELEASE_MASK: u8 = 0x80;

/// Whether the shift state is pressed after seeing scancode `sc`.
pub open spec fn spec_shift_after(shifted: bool, sc: u8) -> bool {
    if sc == LEFT_SHIFT || sc == RIGHT_SHIFT {
        true
    } else if sc == (LEFT_SHIFT | RELEASE_MASK) || sc == (RIGHT_SHIFT | RELEASE_MASK) {
        false
    } else {
        shifted
    }
}

/// Character produced by scancode `sc` under the given shift state; shift
/// make/break codes and unknown codes produce none.
pub open spec fn spec_scancode_char(shifted: bool, sc: u8) -> Option<char> {
    if sc == LEFT_SHIFT || sc == RIGHT_SHIFT || sc == (LEFT_SHIFT | RELEASE_MASK) || sc == (
    RIGHT_SHIFT | RELEASE_MASK) {
        None
    } else if sc == 0x0e {
        Some('\u{0008}')
    } else if sc == 0x0f {
        Some('\t')
    } else if sc == 0x1c {
        Some('\n')
    } else if sc == 0x39 {
        Some(' ')
    } else if !shifted {
        spec_unshifted_char(sc)
    } else {
        spec_shifted_char(sc)
    }
}

/// Character for `sc` with shift released.
pub open spec fn spec_unshifted_char(sc: u8) -> Option<char> {
    if sc == 0x02 { Some('1') } else if sc == 0x03 { Some('2') }
    else if sc == 0x04 { Some('3') } else if sc == 0x05 { Some('4') }
    else if sc == 0x06 { Some('5') } else if sc == 0x07 { Some('6') }
    else if sc == 0x08 { Some('7') } else if sc == 0x09 { Some('8') }
    else if sc == 0x0a { Some('9') } else if sc == 0x0b { Some('0') }
    else if sc == 0x0c { Some('-') } else if sc == 0x0d { Some('=') }
    else if sc == 0x10 { Some('q') } else if sc == 0x11 { Some('w') }
    else if sc == 0x12 { Some('e') } else if sc == 0x13 { Some('r') }
    else if sc == 0x14 { Some('t') } else if sc == 0x15 { Some('y') }
    else if sc == 0x16 { Some('u') } else if sc == 0x17 { Some('i') }
    else if sc == 0x18 { Some('o') } else if sc == 0x19 { Some('p') }
    else if sc == 0x1a { Some('[') } else if sc == 0x1b { Some(']') }
    else if sc == 0x1e { Some('a') } else if sc == 0x1f { Some('s') }
    else if sc == 0x20 { Some('d') } else if sc == 0x21 { Some('f') }
    else if sc == 0x22 { Some('g') } else if sc == 0x23 { Some('h') }
    else if sc == 0x24 { Some('j') } else if sc == 0x25 { Some('k') }
    else if sc == 0x26 { Some('l') } else if sc == 0x27 { Some(';') }
    else if sc == 0x28 { Some('\'') } else if sc == 0x29 { Some('`') }
    else if sc == 0x2b { Some('\\') } else if sc == 0x2c { Some('z') }
    else if sc == 0x2d { Some('x') } else if sc == 0x2e { Some('c') }
    else if sc == 0x2f { Some('v') } else if sc == 0x30 { Some('b') }
    else if sc == 0x31 { Some('n') } else if sc == 0x32 { Some('m') }
    else if sc == 0x33 { Some(',') } else if sc == 0x34 { Some('.') }
    else if sc == 0x35 { Some('/') } else { None }
}

/// Character for `sc` with shift held.
pub open spec fn spec_shifted_char(sc: u8) -> Option<char> {
    if sc == 0x02 { Some('!') } else if sc == 0x03 { Some('@') }
    else if sc == 0x04 { Some('#') } else if sc == 0x05 { Some('$') }
    else if sc == 0x06 { Some('%') } else if sc == 0x07 { Some('^') }
    else if sc == 0x08 { Some('&') } else if sc == 0x09 { Some('*') }
    else if sc == 0x0a { Some('(') } else if sc == 0x0b { Some(')') }
    else if sc == 0x0c { Some('_') } else if sc == 0x0d { Some('+') }
    else if sc == 0x10 { Some('Q') } else if sc == 0x11 { Some('W') }
    else if sc == 0x12 { Some('E') } else if sc == 0x13 { Some('R') }
    else if sc == 0x14 { Some('T') } else if sc == 0x15 { Some('Y') }
    else if sc == 0x16 { Some('U') } else if sc == 0x17 { Some('I') }
    else if sc == 0x18 { Some('O') } else if sc == 0x19 { Some('P') }
    else if sc == 0x1a { Some('{') } else if sc == 0x1b { Some('}') }
    else if sc == 0x1e { Some('A') } else if sc == 0x1f { Some('S') }
    else if sc == 0x20 { Some('D') } else if sc == 0x21 { Some('F') }
    else if sc == 0x22 { Some('G') } else if sc == 0x23 { Some('H') }
    else if sc == 0x24 { Some('J') } else if sc == 0x25 { Some('K') }
    else if sc == 0x26 { Some('L') } else if sc == 0x27 { Some(':') }
    else if sc == 0x28 { Some('"') } else if sc == 0x29 { Some('~') }
    else if sc == 0x2b { Some('|') } else if sc == 0x2c { Some('Z') }
    else if sc == 0x2d { Some('X') } else if sc == 0x2e { Some('C') }
    else if sc == 0x2f { Some('V') } else if sc == 0x30 { Some('B') }
    else if sc == 0x31 { Some('N') } else if sc == 0x32 { Some('M') }
    else if sc == 0x33 { Some('<') } else if sc == 0x34 { Some('>') }
    else if sc == 0x35 { Some('?') } else { None }
}

/// Decode one set-1 scancode under the caller's shift state.
///
/// Shift make and break codes update the state and produce no character;
/// every other scancode leaves the state alone and maps through the
/// decode tables.
pub fn scancode_to_char(shift_pressed: &mut bool, sc: u8) -> (r: Option<char>)
    ensures
        *final(shift_pressed) == spec_shift_after(*old(shift_pressed), sc),
        r == spec_scancode_char(*old(shift_pressed), sc),
{
    if sc == LEFT_SHIFT || sc == RIGHT_SHIFT {
        *shift_pressed = true;
        return None;
    }
    if sc == (LEFT_SHIFT | RELEASE_MASK) || sc == (RIGHT_SHIFT | RELEASE_MASK) {
        *shift_pressed = false;
        return None;
    }

    if sc == 0x0e {
        return Some('\u{0008}');
    }
    if sc == 0x0f {
        return Some('\t');
    }
    if sc == 0x1c {
        return Some('\n');
    }
    if sc == 0x39 {
        return Some(' ');
    }

    if !*shift_pressed {
        unshifted_char(sc)
    } else {
        shifted_char(sc)
    }
}

fn unshifted_char(sc: u8) -> (r: Option<char>)
    ensures
        r == spec_unshifted_char(sc),
{
    match sc {
        0x02 => Some('1'), 0x03 => Some('2'), 0x04 => Some('3'), 0x05 => Some('4'),
        0x06 => Some('5'), 0x07 => Some('6'), 0x08 => Some('7'), 0x09 => Some('8'),
        0x0a => Some('9'), 0x0b => Some('0'), 0x0c => Some('-'), 0x0d => Some('='),
        0x10 => Some('q'), 0x11 => Some('w'), 0x12 => Some('e'), 0x13 => Some('r'),
        0x14 => Some('t'), 0x15 => Some('y'), 0x16 => Some('u'), 0x17 => Some('i'),
        0x18 => Some('o'), 0x19 => Some('p'), 0x1a => Some('['), 0x1b => Some(']'),
        0x1e => Some('a'), 0x1f => Some('s'), 0x20 => Some('d'), 0x21 => Some('f'),
        0x22 => Some('g'), 0x23 => Some('h'), 0x24 => Some('j'), 0x25 => Some('k'),
        0x26 => Some('l'), 0x27 => Some(';'), 0x28 => Some('\''), 0x29 => Some('`'),
        0x2b => Some('\\'), 0x2c => Some('z'), 0x2d => Some('x'), 0x2e => Some('c'),
        0x2f => Some('v'), 0x30 => Some('b'), 0x31 => Some('n'), 0x32 => Some('m'),
        0x33 => Some(','), 0x34 => Some('.'), 0x35 => Some('/'),
        _ => None,
    }
}

fn shifted_char(sc: u8) -> (r: Option<char>)
    ensures
        r == spec_shifted_char(sc),
{
    match sc {
        0x02 => Some('!'), 0x03 => Some('@'), 0x04 => Some('#'), 0x05 => Some('$'),
        0x06 => Some('%'), 0x07 => Some('^'), 0x08 => Some('&'), 0x09 => Some('*'),
        0x0a => Some('('), 0x0b => Some(')'), 0x0c => Some('_'), 0x0d => Some('+'),
        0x10 => Some('Q'), 0x11 => Some('W'), 0x12 => Some('E'), 0x13 => Some('R'),
        0x14 => Some('T'), 0x15 => Some('Y'), 0x16 => Some('U'), 0x17 => Some('I'),
        0x18 => Some('O'), 0x19 => Some('P'), 0x1a => Some('{'), 0x1b => Some('}'),
        0x1e => Some('A'), 0x1f => Some('S'), 0x20 => Some('D'), 0x21 => Some('F'),
        0x22 => Some('G'), 0x23 => Some('H'), 0x24 => Some('J'), 0x25 => Some('K'),
        0x26 => Some('L'), 0x27 => Some(':'), 0x28 => Some('"'), 0x29 => Some('~'),
        0x2b => Some('|'), 0x2c => Some('Z'), 0x2d => Some('X'), 0x2e => Some('C'),
        0x2f => Some('V'), 0x30 => Some('B'), 0x31 => Some('N'), 0x32 => Some('M'),
        0x33 => Some('<'), 0x34 => Some('>'), 0x35 => Some('?'),
        _ => None,
    }
}

} // verus!
