//! A verified interpreter core for an 8-bit virtual machine with a register
//! file, 4096 bytes of addressable memory and a monochrome 64x32 pixel
//! display. The crate holds the opcode decoder, the CPU state machine that
//! applies each instruction's semantics, and the display buffer's
//! XOR-sprite-blit with collision reporting. Host concerns (window creation,
//! key mapping, program files) stay outside.

use vstd::prelude::*;

pub mod cpu;
pub mod decoder;
pub mod gpu;
pub mod hex;
pub mod memory;

verus! {

/// The fatal conditions the engine can report. All are unrecoverable at the
/// core level: the engine halts and the state is left untouched by the call
/// that reported one.
#[derive(Debug, PartialEq, Eq, Structural, Clone, Copy)]
pub enum Fault {
    /// A fetched word matched no entry of the decode table.
    UnrecognizedOpcode,
    /// Return was executed with an empty call stack.
    StackUnderflow,
    /// The program counter was identical across two consecutive non-blocked
    /// steps (a defensive self-check for runaway-loop bugs).
    StuckProgramCounter,
    /// A read, write or load addressed memory outside of its 4096 bytes.
    MemoryBoundsFault,
    /// A sprite draw whose origin or extent fails the display's range check
    /// (origin column past the display width, or rows past its height).
    DisplayBoundsFault,
}

} // verus!
