//! The instruction register: a clocked word register that combinationally
//! decodes the RV32I fields and the five sign- or zero-extended immediates
//! of the latched instruction.

use crate::bytes::{
    all_known, asserted, from_nat, le_val, lemma_le_val_bound, unknown_seq, Bytes,
};
use crate::helper::{sign_extend, sign_extended};
use crate::pc::latched;
use crate::types::{wf_byte, wf_word};
use vstd::arithmetic::power2::pow2;
use vstd::prelude::*;

verus! {

/// Either of these two encodings, once latched, ends a run: a magic NOP
/// used as a halt marker, and a branch-if-equal to its own address (an
/// unconditional infinite loop).
pub const HALT_MAGIC_NOP: u32 = 0xF000_2013;

pub const HALT_SELF_LOOP: u32 = 0x0000_0063;

/// A decoded bit field of the instruction word: bits `sh .. sh+width`, as a
/// known byte when the instruction is fully known (`m` is `2^width`, at
/// most 256).
pub open spec fn ir_field(w: Seq<Option<u8>>, sh: nat, m: nat) -> Seq<Option<u8>> {
    if all_known(w) {
        seq![Some((((le_val(w) / pow2(sh)) % m) as u8))]
    } else {
        unknown_seq(1)
    }
}

/// The raw (unextended) S-format immediate of instruction value `v`.
pub open spec fn s_imm_raw(v: nat) -> nat {
    ((v / pow2(25)) % 128) * 32 + (v / pow2(7)) % 32
}

/// The raw (unextended) B-format immediate of instruction value `v`.
pub open spec fn b_imm_raw(v: nat) -> nat {
    ((v / pow2(31)) % 2) * 4096 + ((v / pow2(7)) % 2) * 2048 + ((v / pow2(25)) % 64) * 32 + ((v
        / pow2(8)) % 16) * 2
}

/// The raw (unextended) J-format immediate of instruction value `v`.
pub open spec fn j_imm_raw(v: nat) -> nat {
    ((v / pow2(31)) % 2) * 0x100000 + ((v / pow2(12)) % 256) * 4096 + ((v / pow2(20)) % 2) * 2048
        + ((v / pow2(21)) % 1024) * 2
}

/// An immediate output net: the extended immediate as a known word when the
/// instruction is fully known, else all-unknown.
pub open spec fn ir_imm(w: Seq<Option<u8>>, raw: nat, k: nat) -> Seq<Option<u8>> {
    if all_known(w) {
        from_nat(4, sign_extended(raw, k))
    } else {
        unknown_seq(4)
    }
}

/// The U-format immediate output: bits 31..12, shifted left by twelve.
pub open spec fn ir_u_imm(w: Seq<Option<u8>>) -> Seq<Option<u8>> {
    if all_known(w) {
        from_nat(4, ((le_val(w) / pow2(12)) % pow2(20)) * 4096)
    } else {
        unknown_seq(4)
    }
}

/// The decoded output nets of the instruction register.
pub struct IrOutputs {
    pub funct3: Bytes,
    pub funct7: Bytes,
    pub opcode: Bytes,
    pub i_imm: Bytes,
    pub s_imm: Bytes,
    pub b_imm: Bytes,
    pub u_imm: Bytes,
    pub j_imm: Bytes,
    pub rs1: Bytes,
    pub rs2: Bytes,
    pub rd: Bytes,
}

/// The instruction register.
pub struct IR {
    /// The latched instruction word; all-unknown until the first fetch
    /// completes.
    pub data_inner: Bytes,
}

impl IR {
    /// Builds the register holding an all-unknown word.
    pub fn new() -> (r: IR)
        ensures
            r.data_inner@ == unknown_seq(4),
    {
        IR { data_inner: Bytes::unknown(4) }
    }

    /// Restores the all-unknown reset value.
    pub fn reset(&mut self)
        ensures
            final(self).data_inner@ == unknown_seq(4),
    {
        self.data_inner = Bytes::unknown(4);
    }

    /// On the clock edge, latches the memory read data when the load enable
    /// is asserted.
    pub fn on_clock(&mut self, load: &Bytes, data: &Bytes)
        requires
            wf_byte(load@),
            wf_word(data@),
        ensures
            final(self).data_inner@ == latched(old(self).data_inner@, load@, data@),
    {
        if load.is_something_nonzero() {
            self.data_inner = data.clone();
        }
    }

    /// The destination-register field, read directly for trace purposes.
    pub fn get_rd_idx(&self) -> (r: Bytes)
        requires
            wf_word(self.data_inner@),
        ensures
            r@ == ir_field(self.data_inner@, 7, 32),
    {
        match self.word_value() {
            Some(inst) => {
                proof {
                    lemma_shr_field(inst, 7, 0x1F);
                }
                Bytes::of_byte(((inst >> 7) & 0x1F) as u8)
            },
            None => Bytes::unknown(1),
        }
    }

    /// True when the latched word is one of the two terminating encodings.
    pub fn can_end(&self) -> (r: bool)
        requires
            wf_word(self.data_inner@),
        ensures
            r == (self.data_inner@ == from_nat(4, HALT_MAGIC_NOP as nat) || self.data_inner@
                == from_nat(4, HALT_SELF_LOOP as nat)),
    {
        self.data_inner.same_as(&Bytes::from_u32(HALT_MAGIC_NOP)) || self.data_inner.same_as(
            &Bytes::from_u32(HALT_SELF_LOOP),
        )
    }

    /// The instruction as an integer, when fully known.
    fn word_value(&self) -> (r: Option<u32>)
        requires
            wf_word(self.data_inner@),
        ensures
            r == if all_known(self.data_inner@) {
                Some(le_val(self.data_inner@) as u32)
            } else {
                None::<u32>
            },
            r is Some ==> r->0 as nat == le_val(self.data_inner@),
    {
        proof {
            assert(self.data_inner@.take(4) =~= self.data_inner@);
            lemma_le_val_bound(self.data_inner@);
            vstd::arithmetic::power2::lemma2_to64();
        }
        self.data_inner.to_u32()
    }

    /// Publishes the decoded fields and immediates of the latched word; an
    /// unknown instruction decodes to all-unknown outputs.
    pub fn on_comb(&self) -> (o: IrOutputs)
        requires
            wf_word(self.data_inner@),
        ensures
            o.funct3@ == ir_field(self.data_inner@, 12, 8),
            o.funct7@ == ir_field(self.data_inner@, 25, 128),
            o.opcode@ == ir_field(self.data_inner@, 0, 128),
            o.rs1@ == ir_field(self.data_inner@, 15, 32),
            o.rs2@ == ir_field(self.data_inner@, 20, 32),
            o.rd@ == ir_field(self.data_inner@, 7, 32),
            o.i_imm@ == ir_imm(self.data_inner@, le_val(self.data_inner@) / pow2(20), 11),
            o.s_imm@ == ir_imm(self.data_inner@, s_imm_raw(le_val(self.data_inner@)), 11),
            o.b_imm@ == ir_imm(self.data_inner@, b_imm_raw(le_val(self.data_inner@)), 12),
            o.u_imm@ == ir_u_imm(self.data_inner@),
            o.j_imm@ == ir_imm(self.data_inner@, j_imm_raw(le_val(self.data_inner@)), 20),
    {
        match self.word_value() {
            Some(inst) => {
                proof {
                    lemma_shr_field(inst, 12, 0b111);
                    lemma_shr_field(inst, 25, 0x7F);
                    lemma_shr_field(inst, 15, 0x1F);
                    lemma_shr_field(inst, 20, 0x1F);
                    lemma_shr_field(inst, 7, 0x1F);
                    lemma_shr_field(inst, 0, 0x7F);
                    assert(inst >> 0u32 == inst) by (bit_vector);
                    vstd::arithmetic::power2::lemma2_to64();
                    vstd::arithmetic::div_mod::lemma_div_basics(inst as int);
                    vstd::bits::lemma_u32_shr_is_div(inst, 20);
                }
                let s_raw: u32 = (((inst >> 25) & 0x7F) << 5) | ((inst >> 7) & 0x1F);
                proof {
                    lemma_shr_field(inst, 25, 0x7F);
                    lemma_shr_field(inst, 7, 0x1F);
                    assert((((inst >> 25) & 0x7F) << 5) | ((inst >> 7) & 0x1F) == ((inst >> 25)
                        & 0x7F) * 32 + ((inst >> 7) & 0x1F)) by (bit_vector);
                    assert(s_raw as nat == s_imm_raw(inst as nat));
                }
                let b_raw: u32 = (((inst >> 31) & 0x1) << 12) | (((inst >> 7) & 0x1) << 11) | (((
                inst >> 25) & 0x3F) << 5) | (((inst >> 8) & 0xF) << 1);
                proof {
                    lemma_shr_field(inst, 31, 0x1);
                    lemma_shr_field(inst, 7, 0x1);
                    lemma_shr_field(inst, 25, 0x3F);
                    lemma_shr_field(inst, 8, 0xF);
                    assert((((inst >> 31) & 0x1) << 12) | (((inst >> 7) & 0x1) << 11) | (((inst
                        >> 25) & 0x3F) << 5) | (((inst >> 8) & 0xF) << 1) == ((inst >> 31) & 0x1)
                        * 4096 + ((inst >> 7) & 0x1) * 2048 + ((inst >> 25) & 0x3F) * 32 + ((inst
                        >> 8) & 0xF) * 2) by (bit_vector);
                    assert(b_raw as nat == b_imm_raw(inst as nat));
                }
                let j_raw: u32 = (((inst >> 31) & 0x1) << 20) | (((inst >> 12) & 0xFF) << 12) | (((
                inst >> 20) & 0x1) << 11) | (((inst >> 21) & 0x3FF) << 1);
                proof {
                    lemma_shr_field(inst, 31, 0x1);
                    lemma_shr_field(inst, 12, 0xFF);
                    lemma_shr_field(inst, 20, 0x1);
                    lemma_shr_field(inst, 21, 0x3FF);
                    assert((((inst >> 31) & 0x1) << 20) | (((inst >> 12) & 0xFF) << 12) | (((inst
                        >> 20) & 0x1) << 11) | (((inst >> 21) & 0x3FF) << 1) == ((inst >> 31)
                        & 0x1) * 0x100000 + ((inst >> 12) & 0xFF) * 4096 + ((inst >> 20) & 0x1)
                        * 2048 + ((inst >> 21) & 0x3FF) * 2) by (bit_vector);
                    assert(j_raw as nat == j_imm_raw(inst as nat));
                }
                let u_val: u32 = ((inst >> 12) & 0xFFFFF) << 12;
                proof {
                    lemma_shr_field(inst, 12, 0xFFFFF);
                    assert(((inst >> 12) & 0xFFFFF) << 12 == ((inst >> 12) & 0xFFFFF) * 4096)
                        by (bit_vector);
                    assert(pow2(20) == 0x100000) by {
                        vstd::arithmetic::power2::lemma2_to64();
                    }
                    assert(u_val as nat == ((inst as nat / pow2(12)) % pow2(20)) * 4096);
                }
                IrOutputs {
                    funct3: Bytes::of_byte(((inst >> 12) & 0b111) as u8),
                    funct7: Bytes::of_byte(((inst >> 25) & 0b111_1111) as u8),
                    opcode: Bytes::of_byte((inst & 0b111_1111) as u8),
                    i_imm: sign_extend(inst >> 20, 11),
                    s_imm: sign_extend(s_raw, 11),
                    b_imm: sign_extend(b_raw, 12),
                    u_imm: Bytes::from_u32(u_val),
                    j_imm: sign_extend(j_raw, 20),
                    rs1: Bytes::of_byte(((inst >> 15) & 0x1F) as u8),
                    rs2: Bytes::of_byte(((inst >> 20) & 0x1F) as u8),
                    rd: Bytes::of_byte(((inst >> 7) & 0x1F) as u8),
                }
            },
            None => IrOutputs {
                funct3: Bytes::unknown(1),
                funct7: Bytes::unknown(1),
                opcode: Bytes::unknown(1),
                i_imm: Bytes::unknown(4),
                s_imm: Bytes::unknown(4),
                b_imm: Bytes::unknown(4),
                u_imm: Bytes::unknown(4),
                j_imm: Bytes::unknown(4),
                rs1: Bytes::unknown(1),
                rs2: Bytes::unknown(1),
                rd: Bytes::unknown(1),
            },
        }
    }
}

/// A shifted-and-masked field equals division and remainder: for a mask of
/// `w` one bits, `(x >> sh) & mask == (x / 2^sh) % 2^w`.
proof fn lemma_shr_field(x: u32, sh: u32, mask: u32)
    requires
        sh < 32,
        mask == 0x1 || mask == 0x3 || mask == 0x7 || mask == 0xF || mask == 0x1F || mask == 0x3F
            || mask == 0x7F || mask == 0xFF || mask == 0x3FF || mask == 0xFFFFF,
    ensures
        (x >> sh) & mask == ((x as nat / pow2(sh as nat)) % (mask + 1) as nat) as u32,
        (x >> sh) & mask <= mask,
{
    vstd::bits::lemma_u32_shr_is_div(x, sh);
    let y = x >> sh;
    assert((mask == 0x1 ==> y & mask == y % 2) && (mask == 0x3 ==> y & mask == y % 4) && (mask
        == 0x7 ==> y & mask == y % 8) && (mask == 0xF ==> y & mask == y % 16) && (mask == 0x1F
        ==> y & mask == y % 32) && (mask == 0x3F ==> y & mask == y % 64) && (mask == 0x7F ==> y
        & mask == y % 128) && (mask == 0xFF ==> y & mask == y % 256) && (mask == 0x3FF ==> y
        & mask == y % 1024) && (mask == 0xFFFFF ==> y & mask == y % 0x100000) && y & mask
        <= mask) by (bit_vector);
}

} // verus!
