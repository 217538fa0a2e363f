//! The memory-address multiplexer: the memory controller's address is the
//! program counter during a fetch and the ALU output during a load or
//! store.

use crate::bytes::{unknown_seq, Bytes};
use crate::types::{wf_byte, wf_word, MEM_ADDR_SEL_ALU, MEM_ADDR_SEL_PC};
use vstd::prelude::*;

verus! {

/// What the memory-address multiplexer drives.
pub open spec fn mem_addr_mux_eval(
    pc: Seq<Option<u8>>,
    alu_out: Seq<Option<u8>>,
    sel: Seq<Option<u8>>,
) -> Seq<Option<u8>> {
    match sel[0] {
        Some(c) => if c == MEM_ADDR_SEL_PC {
            pc
        } else if c == MEM_ADDR_SEL_ALU {
            alu_out
        } else {
            unknown_seq(4)
        },
        None => unknown_seq(4),
    }
}

/// Selects the memory controller's address.
pub struct MemAddrMux {}

impl MemAddrMux {
    /// Builds the multiplexer; it holds no state.
    pub fn new() -> MemAddrMux {
        MemAddrMux {}
    }

    /// Recomputes the output from the current inputs and selector nets.
    pub fn on_comb(&self, pc: &Bytes, alu_out: &Bytes, sel: &Bytes) -> (out: Bytes)
        requires
            wf_word(pc@),
            wf_word(alu_out@),
            wf_byte(sel@),
        ensures
            out@ == mem_addr_mux_eval(pc@, alu_out@, sel@),
    {
        match sel.to_u8() {
            Some(c) => {
                if c == MEM_ADDR_SEL_PC {
                    pc.clone()
                } else if c == MEM_ADDR_SEL_ALU {
                    alu_out.clone()
                } else {
                    Bytes::unknown(4)
                }
            },
            None => Bytes::unknown(4),
        }
    }
}

} // verus!
