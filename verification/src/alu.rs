//! The arithmetic-logic unit and its two operand multiplexers.
//!
//! All three are purely combinational: their outputs are functions of the
//! current net values alone, recomputed on every settling pass.

use crate::bytes::{
    add_bytes, and_bytes, from_nat, or_bytes, shl_bytes, shr_bytes, shra_bytes, sub_bytes,
    unknown_seq, xor_bytes, Bytes,
};
use crate::types::{
    wf_byte, wf_word, ALU1_SEL_PC, ALU1_SEL_RS1, ALU2_SEL_B_IMM, ALU2_SEL_I_IMM, ALU2_SEL_J_IMM,
    ALU2_SEL_RS2, ALU2_SEL_S_IMM, ALU2_SEL_U_IMM, ALU_ADD, ALU_AND, ALU_OR, ALU_SLL, ALU_SRA,
    ALU_SRL, ALU_SUB, ALU_XOR,
};
use vstd::prelude::*;

verus! {

/// The known word holding `v` (little endian): how constants appear on the
/// datapath's nets.
pub open spec fn word_of(v: nat) -> Seq<Option<u8>> {
    from_nat(4, v)
}

/// What the ALU drives on its output net, given its operand and operation
/// nets. Shift amounts use only the low five bits of the second operand; an
/// unrecognised or unknown operation yields an all-unknown word.
pub open spec fn alu_eval(
    a: Seq<Option<u8>>,
    b: Seq<Option<u8>>,
    op: Seq<Option<u8>>,
) -> Seq<Option<u8>> {
    match op[0] {
        Some(c) => if c == ALU_ADD {
            add_bytes(a, b)
        } else if c == ALU_SLL {
            shl_bytes(a, and_bytes(b, word_of(0x1F)))
        } else if c == ALU_SRA {
            shra_bytes(a, and_bytes(b, word_of(0x1F)))
        } else if c == ALU_SUB {
            sub_bytes(a, b)
        } else if c == ALU_XOR {
            xor_bytes(a, b)
        } else if c == ALU_SRL {
            shr_bytes(a, and_bytes(b, word_of(0x1F)))
        } else if c == ALU_OR {
            or_bytes(a, b)
        } else if c == ALU_AND {
            and_bytes(a, b)
        } else {
            unknown_seq(4)
        },
        None => unknown_seq(4),
    }
}

/// The arithmetic-logic unit: a stateless combinational block.
pub struct Alu {}

impl Alu {
    /// Builds the ALU; it holds no state.
    pub fn new() -> Alu {
        Alu {}
    }

    /// Recomputes the output from the current operand and operation nets.
    pub fn on_comb(&self, a: &Bytes, b: &Bytes, op: &Bytes) -> (out: Bytes)
        requires
            wf_word(a@),
            wf_word(b@),
            wf_byte(op@),
        ensures
            out@ == alu_eval(a@, b@, op@),
    {
        let mask = Bytes::from_u32(0x1F);
        match op.to_u8() {
            Some(c) => {
                if c == ALU_ADD {
                    a.add(b)
                } else if c == ALU_SLL {
                    a.shl(&b.and(&mask))
                } else if c == ALU_SRA {
                    a.shra(&b.and(&mask))
                } else if c == ALU_SUB {
                    a.sub(b)
                } else if c == ALU_XOR {
                    a.xor(b)
                } else if c == ALU_SRL {
                    a.shr(&b.and(&mask))
                } else if c == ALU_OR {
                    a.or(b)
                } else if c == ALU_AND {
                    a.and(b)
                } else {
                    Bytes::unknown(4)
                }
            },
            None => Bytes::unknown(4),
        }
    }
}

/// What the first ALU operand multiplexer drives: the RS1 register data or
/// the program counter.
pub open spec fn alu_mux1_eval(
    rs1: Seq<Option<u8>>,
    pc: Seq<Option<u8>>,
    sel: Seq<Option<u8>>,
) -> Seq<Option<u8>> {
    match sel[0] {
        Some(c) => if c == ALU1_SEL_RS1 {
            rs1
        } else if c == ALU1_SEL_PC {
            pc
        } else {
            unknown_seq(4)
        },
        None => unknown_seq(4),
    }
}

/// Selects the first ALU operand.
pub struct AluMux1 {}

impl AluMux1 {
    /// Builds the multiplexer; it holds no state.
    pub fn new() -> AluMux1 {
        AluMux1 {}
    }

    /// Recomputes the output from the current inputs and selector nets.
    pub fn on_comb(&self, rs1: &Bytes, pc: &Bytes, sel: &Bytes) -> (out: Bytes)
        requires
            wf_word(rs1@),
            wf_word(pc@),
            wf_byte(sel@),
        ensures
            out@ == alu_mux1_eval(rs1@, pc@, sel@),
    {
        match sel.to_u8() {
            Some(c) => {
                if c == ALU1_SEL_RS1 {
                    rs1.clone()
                } else if c == ALU1_SEL_PC {
                    pc.clone()
                } else {
                    Bytes::unknown(4)
                }
            },
            None => Bytes::unknown(4),
        }
    }
}

/// What the second ALU operand multiplexer drives: one of the five
/// immediates or the RS2 register data.
pub open spec fn alu_mux2_eval(
    i_imm: Seq<Option<u8>>,
    u_imm: Seq<Option<u8>>,
    b_imm: Seq<Option<u8>>,
    s_imm: Seq<Option<u8>>,
    j_imm: Seq<Option<u8>>,
    rs2: Seq<Option<u8>>,
    sel: Seq<Option<u8>>,
) -> Seq<Option<u8>> {
    match sel[0] {
        Some(c) => if c == ALU2_SEL_I_IMM {
            i_imm
        } else if c == ALU2_SEL_U_IMM {
            u_imm
        } else if c == ALU2_SEL_B_IMM {
            b_imm
        } else if c == ALU2_SEL_S_IMM {
            s_imm
        } else if c == ALU2_SEL_J_IMM {
            j_imm
        } else if c == ALU2_SEL_RS2 {
            rs2
        } else {
            unknown_seq(4)
        },
        None => unknown_seq(4),
    }
}

/// Selects the second ALU operand.
pub struct AluMux2 {}

impl AluMux2 {
    /// Builds the multiplexer; it holds no state.
    pub fn new() -> AluMux2 {
        AluMux2 {}
    }

    /// Recomputes the output from the current inputs and selector nets.
    pub fn on_comb(
        &self,
        i_imm: &Bytes,
        u_imm: &Bytes,
        b_imm: &Bytes,
        s_imm: &Bytes,
        j_imm: &Bytes,
        rs2: &Bytes,
        sel: &Bytes,
    ) -> (out: Bytes)
        requires
            wf_word(i_imm@),
            wf_word(u_imm@),
            wf_word(b_imm@),
            wf_word(s_imm@),
            wf_word(j_imm@),
            wf_word(rs2@),
            wf_byte(sel@),
        ensures
            out@ == alu_mux2_eval(i_imm@, u_imm@, b_imm@, s_imm@, j_imm@, rs2@, sel@),
    {
        match sel.to_u8() {
            Some(c) => {
                if c == ALU2_SEL_I_IMM {
                    i_imm.clone()
                } else if c == ALU2_SEL_U_IMM {
                    u_imm.clone()
                } else if c == ALU2_SEL_B_IMM {
                    b_imm.clone()
                } else if c == ALU2_SEL_S_IMM {
                    s_imm.clone()
                } else if c == ALU2_SEL_J_IMM {
                    j_imm.clone()
                } else if c == ALU2_SEL_RS2 {
                    rs2.clone()
                } else {
                    Bytes::unknown(4)
                }
            },
            None => Bytes::unknown(4),
        }
    }
}

} // verus!
