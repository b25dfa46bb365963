//! Interrupt vector numbers and the controller interface.
//!
//! The programmable interrupt controller is remapped so hardware
//! interrupts start at vector 32; the timer is IRQ 0 and the keyboard
//! IRQ 1.  Controller backends (the 8259 PIC, an APIC) perform port I/O
//! and live outside the verified core, behind `InterruptController`.

use vstd::prelude::*;

verus! {

/// First vector of the primary interrupt controller after remapping.
pub const PIC_1_OFFSET: u8 = 32;

/// Hardware interrupt vectors the kernel handles.
#[derive(Debug, Clone, Copy)]
pub enum InterruptIndex {
    Timer,
    Keyboard,
}

impl InterruptIndex {
    /// The interrupt's vector number.
    pub fn as_u8(self) -> (r: u8)
        ensures
            r == match self {
                InterruptIndex::Timer => PIC_1_OFFSET,
                InterruptIndex::Keyboard => (PIC_1_OFFSET + 1) as u8,
            },
    {
        match self {
            InterruptIndex::Timer => PIC_1_OFFSET,
            InterruptIndex::Keyboard => PIC_1_OFFSET + 1,
        }
    }
}

/// An interrupt controller: initialization and end-of-interrupt signaling.
///
/// Backends drive real hardware and are not verified; nothing in the core
/// depends on what they do.
pub trait InterruptController {
    /// Initialize the controller (remap and unmask).
    fn init(&self);

    /// Signal end of interrupt for the given vector.
    fn end_of_interrupt(&self, irq: InterruptIndex);
}

/// Initialize the given interrupt controller.
pub fn init_interrupts<C: InterruptController>(controller: &C) {
    controller.init();
}

/// Signal end of interrupt on the given controller.
pub fn end_of_interrupt<C: InterruptController>(controller: &C, index: InterruptIndex) {
    controller.end_of_interrupt(index);
}

} // verus!
