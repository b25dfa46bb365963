//! Interactive shell: the edited input line and its key handling.
//!
//! The shell owns a console, the boot memory map (for its memory-report
//! command) and a fixed-size line buffer.  The read-key/execute loop and
//! the command dispatch perform I/O and live outside the verified core;
//! the line editing here is what they build on.

use vstd::prelude::*;
use crate::console::ConsoleOut;
use crate::mem::{MemRegion, regions_ok, regions_ordered, spec_usable_bytes};

verus! {

/// Key characters with special meaning to the shell.
pub struct ShellCommands;

impl ShellCommands {
    /// The line-submit character.
    pub fn enter() -> (c: char)
        ensures
            c == '\n',
    {
        '\n'
    }

    /// The erase character.
    pub fn backspace() -> (c: char)
        ensures
            c == '\u{0008}',
    {
        '\u{0008}'
    }
}

/// Shell state: console, boot memory map, and the line being edited.
pub struct Shell<C: ConsoleOut> {
    /// Console all output goes to.
    pub console: C,
    /// Boot memory map for the memory-report command.
    pub regions: Vec<MemRegion>,
    /// Line buffer.
    pub input_buffer: [u8; 128],
    /// Filled prefix of the line buffer.
    pub length: usize,
    /// Offset at which physical memory is linearly mapped.
    pub phys_offset: u64,
}

impl<C: ConsoleOut> Shell<C> {
    /// The line fits the buffer and the console is usable.
    pub open spec fn spec_wf(&self) -> bool {
        self.length <= 128 && self.console.wf()
    }

    /// The line being edited.
    pub open spec fn line(&self) -> Seq<u8> {
        self.input_buffer@.take(self.length as int)
    }

    /// Create a shell with an empty input line.
    pub fn new(console: C, regions: Vec<MemRegion>, phys_offset: u64) -> (r: Self)
        requires
            console.wf(),
        ensures
            r.spec_wf(),
            r.line() == Seq::<u8>::empty(),
            r.regions@ == regions@,
            r.phys_offset == phys_offset,
    {
        let r = Shell { console, regions, input_buffer: [0; 128], length: 0, phys_offset };
        proof {
            assert(r.line() =~= Seq::<u8>::empty());
        }
        r
    }

    /// Append a character to the line; a full line drops it.
    pub fn push_char(&mut self, ch: char)
        requires
            old(self).spec_wf(),
        ensures
            final(self).spec_wf(),
            final(self).console == old(self).console,
            final(self).regions == old(self).regions,
            if old(self).length < 128 {
                final(self).line() == old(self).line().push(ch as u8)
            } else {
                final(self).line() == old(self).line()
            },
    {
        if self.length < 128 {
            self.input_buffer[self.length] = ch as u8;
            self.length = self.length + 1;
            proof {
                assert(self.line() =~= old(self).line().push(ch as u8));
            }
        }
    }

    /// Remove and return the last character of the line, if any.
    pub fn pop_char(&mut self) -> (r: Option<char>)
        requires
            old(self).spec_wf(),
        ensures
            final(self).spec_wf(),
            final(self).console == old(self).console,
            final(self).regions == old(self).regions,
            match r {
                None => old(self).length == 0 && *final(self) == *old(self),
                Some(c) => {
                    &&& old(self).length > 0
                    &&& c == old(self).line().last() as char
                    &&& final(self).line() == old(self).line().drop_last()
                },
            },
    {
        if self.length == 0 {
            None
        } else {
            self.length = self.length - 1;
            let v = self.input_buffer[self.length];
            proof {
                assert(self.line() =~= old(self).line().drop_last());
            }
            Some(v as char)
        }
    }
}

/// Write the memory-map report to the console, line by line.
pub fn show_memory_map<C: ConsoleOut>(console: &mut C, regions: &Vec<MemRegion>)
    requires
        old(console).wf(),
        regions_ok(regions@),
        spec_usable_bytes(regions@) <= u64::MAX,
    ensures
        final(console).wf(),
{
    let lines = crate::mem::dump_memory_map(regions);
    let n = lines.len();
    let mut i: usize = 0;
    while i < n
        invariant
            i <= n,
            n == lines@.len(),
            console.wf(),
        decreases n - i,
    {
        console.write_line(lines[i].as_str());
        i = i + 1;
    }
}

/// Allocate one physical frame from the regions: the shell's allocator
/// test command.
pub fn alloc_frame(regions: Vec<MemRegion>) -> (r: Option<u64>)
    requires
        regions_ok(regions@),
        regions_ordered(regions@),
    ensures
        (r is Some) == exists|i: int|
            0 <= i < regions@.len() && crate::frame::usable_region(#[trigger] regions@[i]),
{
    crate::mem::alloc_frame(regions)
}

} // verus!
