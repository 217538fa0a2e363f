//! The branch comparator and its operand multiplexer.

use crate::alu::word_of;
use crate::bytes::{byte_cmp_spec, signed_cmp_spec, unknown_seq, Bytes};
use crate::types::{
    wf_byte, wf_word, CMP_SEL_I_IMM, CMP_SEL_RS2, FUNCT3_BEQ, FUNCT3_BGE, FUNCT3_BGEU,
    FUNCT3_BLT, FUNCT3_BLTU, FUNCT3_BNE,
};
use vstd::prelude::*;

verus! {

/// What the comparator drives: the word 1 when the predicate keyed by the
/// branch funct3 code holds of the operands, else the word 0. Equality is
/// structural on the tri-state bytes; the ordered predicates treat any
/// unknown operand as equal, which suppresses the branch downstream.
pub open spec fn cmp_eval(
    a: Seq<Option<u8>>,
    b: Seq<Option<u8>>,
    op: Seq<Option<u8>>,
) -> Seq<Option<u8>> {
    let taken = match op[0] {
        Some(c) => if c == FUNCT3_BEQ {
            a == b
        } else if c == FUNCT3_BNE {
            a != b
        } else if c == FUNCT3_BLT {
            signed_cmp_spec(a, b) == core::cmp::Ordering::Less
        } else if c == FUNCT3_BGE {
            signed_cmp_spec(a, b) != core::cmp::Ordering::Less
        } else if c == FUNCT3_BLTU {
            byte_cmp_spec(a, b) == core::cmp::Ordering::Less
        } else if c == FUNCT3_BGEU {
            byte_cmp_spec(a, b) != core::cmp::Ordering::Less
        } else {
            false
        },
        None => false,
    };
    if taken {
        word_of(1)
    } else {
        word_of(0)
    }
}

/// The branch comparator: a stateless combinational block.
pub struct Cmp {}

impl Cmp {
    /// Builds the comparator; it holds no state.
    pub fn new() -> Cmp {
        Cmp {}
    }

    /// Recomputes the output from the current operand and operation nets.
    pub fn on_comb(&self, a: &Bytes, b: &Bytes, op: &Bytes) -> (out: Bytes)
        requires
            wf_word(a@),
            wf_word(b@),
            wf_byte(op@),
        ensures
            out@ == cmp_eval(a@, b@, op@),
    {
        let taken: bool = match op.to_u8() {
            Some(c) => {
                if c == FUNCT3_BEQ {
                    a.same_as(b)
                } else if c == FUNCT3_BNE {
                    !a.same_as(b)
                } else if c == FUNCT3_BLT {
                    matches!(a.signed_cmp(b), core::cmp::Ordering::Less)
                } else if c == FUNCT3_BGE {
                    !matches!(a.signed_cmp(b), core::cmp::Ordering::Less)
                } else if c == FUNCT3_BLTU {
                    matches!(a.byte_cmp(b), core::cmp::Ordering::Less)
                } else if c == FUNCT3_BGEU {
                    !matches!(a.byte_cmp(b), core::cmp::Ordering::Less)
                } else {
                    false
                }
            },
            None => false,
        };
        if taken {
            Bytes::from_u32(1)
        } else {
            Bytes::from_u32(0)
        }
    }
}

/// What the comparator's second-operand multiplexer drives: the RS2
/// register data or the I immediate.
pub open spec fn cmp_mux_eval(
    rs2: Seq<Option<u8>>,
    i_imm: Seq<Option<u8>>,
    sel: Seq<Option<u8>>,
) -> Seq<Option<u8>> {
    match sel[0] {
        Some(c) => if c == CMP_SEL_RS2 {
            rs2
        } else if c == CMP_SEL_I_IMM {
            i_imm
        } else {
            unknown_seq(4)
        },
        None => unknown_seq(4),
    }
}

/// Selects the comparator's second operand.
pub struct CmpMux {}

impl CmpMux {
    /// Builds the multiplexer; it holds no state.
    pub fn new() -> CmpMux {
        CmpMux {}
    }

    /// Recomputes the output from the current inputs and selector nets.
    pub fn on_comb(&self, rs2: &Bytes, i_imm: &Bytes, sel: &Bytes) -> (out: Bytes)
        requires
            wf_word(rs2@),
            wf_word(i_imm@),
            wf_byte(sel@),
        ensures
            out@ == cmp_mux_eval(rs2@, i_imm@, sel@),
    {
        match sel.to_u8() {
            Some(c) => {
                if c == CMP_SEL_RS2 {
                    rs2.clone()
                } else if c == CMP_SEL_I_IMM {
                    i_imm.clone()
                } else {
                    Bytes::unknown(4)
                }
            },
            None => Bytes::unknown(4),
        }
    }
}

} // verus!
