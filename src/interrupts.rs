//! Interrupt vector layout and the timer interrupt's heartbeat glyph.
//!
//! The two chained interrupt controllers are remapped so that hardware
//! interrupts land above the vectors the CPU reserves for exceptions.
use vstd::prelude::*;

verus! {

/// First vector of the primary interrupt controller.
pub const PIC_1_OFFSET: u8 = 32;

/// First vector of the secondary interrupt controller.
pub const PIC_2_OFFSET: u8 = 40;

/// Vectors of the hardware and software interrupts the kernel handles.
#[derive(Clone, Copy, Debug, PartialEq, Eq, Structural)]
pub enum InterruptVectors {
    Timer,
    Keyboard,
    Serial,
    Mouse,
    Panic,
    Spurious,
}

impl InterruptVectors {
    /// The vector number of each interrupt.
    pub open spec fn vector(self) -> u8 {
        match self {
            InterruptVectors::Timer => 32,
            InterruptVectors::Keyboard => 33,
            InterruptVectors::Serial => 34,
            InterruptVectors::Mouse => 44,
            InterruptVectors::Panic => 99,
            InterruptVectors::Spurious => 255,
        }
    }

    pub fn as_u8(self) -> (r: u8)
        ensures
            r == self.vector(),
    {
        match self {
            InterruptVectors::Timer => 32,
            InterruptVectors::Keyboard => 33,
            InterruptVectors::Serial => 34,
            InterruptVectors::Mouse => 44,
            InterruptVectors::Panic => 99,
            InterruptVectors::Spurious => 255,
        }
    }

    pub fn as_usize(self) -> (r: usize)
        ensures
            r == self.vector(),
    {
        self.as_u8() as usize
    }
}

/// Number of glyphs the heartbeat cycles through.
pub const INDICATOR_LEN: usize = 4;

/// The heartbeat glyph at position `index`: `\`, `|`, `/`, `-`.
pub open spec fn indicator_glyph(index: int) -> u8 {
    if index == 0 {
        0x5c
    } else if index == 1 {
        0x7c
    } else if index == 2 {
        0x2f
    } else {
        0x2d
    }
}

/// A spinning glyph advanced once per timer interrupt (or per tick of the
/// indicator task), drawn in the top-right corner of the screen.
pub struct Heartbeat {
    index: usize,
}

impl Heartbeat {
    pub closed spec fn position(&self) -> nat {
        self.index as nat
    }

    pub open spec fn wf(&self) -> bool {
        self.position() < INDICATOR_LEN
    }

    pub fn new() -> (r: Self)
        ensures
            r.wf(),
            r.position() == 0,
    {
        Heartbeat { index: 0 }
    }

    /// Moves to the next glyph, wrapping after the last, and returns it.
    pub fn advance(&mut self) -> (glyph: u8)
        requires
            old(self).wf(),
        ensures
            final(self).wf(),
            final(self).position() == (old(self).position() + 1) % (INDICATOR_LEN as nat),
            glyph == indicator_glyph(final(self).position() as int),
    {
        self.index = self.index + 1;
        if self.index >= INDICATOR_LEN {
            self.index = 0;
        }
        if self.index == 0 {
            0x5c
        } else if self.index == 1 {
            0x7c
        } else if self.index == 2 {
            0x2f
        } else {
            0x2d
        }
    }
}

} // verus!
