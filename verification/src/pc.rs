//! The program counter and its input multiplexer.

use crate::alu::word_of;
use crate::bytes::{add_bytes, and_bytes, asserted, from_nat, unknown_seq, Bytes};
use crate::types::{wf_byte, wf_word, PC_SEL_ALU, PC_SEL_ALU_MOD2, PC_SEL_PLUS4};
use vstd::prelude::*;

verus! {

/// The conventional program base: the program counter's reset value.
pub const STARTING_PC: u32 = 0x4000_0000;

/// The value a clocked register holds after an edge: its input when the
/// load enable is known non-zero, else its current value.
pub open spec fn latched(
    cur: Seq<Option<u8>>,
    load: Seq<Option<u8>>,
    data: Seq<Option<u8>>,
) -> Seq<Option<u8>> {
    if asserted(load) {
        data
    } else {
        cur
    }
}

/// The program counter: a clocked register holding the fetch address.
pub struct Pc {
    /// The current architectural program counter.
    pub data_inner: Bytes,
}

impl Pc {
    /// Builds the register holding the conventional program base.
    pub fn new() -> (r: Pc)
        ensures
            r.data_inner@ == from_nat(4, STARTING_PC as nat),
    {
        Pc { data_inner: Bytes::from_u32(STARTING_PC) }
    }

    /// Restores the reset value.
    pub fn reset(&mut self)
        ensures
            final(self).data_inner@ == from_nat(4, STARTING_PC as nat),
    {
        self.data_inner = Bytes::from_u32(STARTING_PC);
    }

    /// On the clock edge, latches the input when the load enable is
    /// asserted.
    pub fn on_clock(&mut self, load: &Bytes, data: &Bytes)
        requires
            wf_byte(load@),
            wf_word(data@),
        ensures
            final(self).data_inner@ == latched(old(self).data_inner@, load@, data@),
    {
        if load.is_something_nonzero() {
            self.data_inner = data.clone();
        }
    }

    /// Publishes the current value onto the output net.
    pub fn on_comb(&self) -> (out: Bytes)
        ensures
            out@ == self.data_inner@,
    {
        self.data_inner.clone()
    }
}

/// What the program-counter multiplexer drives: the next sequential
/// address, the ALU output, or the ALU output with its lowest bit cleared
/// (the jump-and-link-register target).
pub open spec fn pc_mux_eval(
    pc: Seq<Option<u8>>,
    alu_out: Seq<Option<u8>>,
    sel: Seq<Option<u8>>,
) -> Seq<Option<u8>> {
    match sel[0] {
        Some(c) => if c == PC_SEL_PLUS4 {
            add_bytes(pc, word_of(4))
        } else if c == PC_SEL_ALU {
            alu_out
        } else if c == PC_SEL_ALU_MOD2 {
            and_bytes(alu_out, word_of(0xFFFF_FFFE))
        } else {
            unknown_seq(4)
        },
        None => unknown_seq(4),
    }
}

/// Selects the program counter's next value.
pub struct PcMux {}

impl PcMux {
    /// Builds the multiplexer; it holds no state.
    pub fn new() -> PcMux {
        PcMux {}
    }

    /// Recomputes the output from the current inputs and selector nets.
    pub fn on_comb(&self, pc: &Bytes, alu_out: &Bytes, sel: &Bytes) -> (out: Bytes)
        requires
            wf_word(pc@),
            wf_word(alu_out@),
            wf_byte(sel@),
        ensures
            out@ == pc_mux_eval(pc@, alu_out@, sel@),
    {
        match sel.to_u8() {
            Some(c) => {
                if c == PC_SEL_PLUS4 {
                    pc.add(&Bytes::from_u32(4))
                } else if c == PC_SEL_ALU {
                    alu_out.clone()
                } else if c == PC_SEL_ALU_MOD2 {
                    alu_out.and(&Bytes::from_u32(0xFFFF_FFFE))
                } else {
                    Bytes::unknown(4)
                }
            },
            None => Bytes::unknown(4),
        }
    }
}

} // verus!
