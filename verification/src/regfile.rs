//! The register file: thirty-two words, register 0 wired to zero, and its
//! write-data multiplexer.

use crate::bytes::{all_known, asserted, from_nat, le_val, unknown_seq, zero_seq, Bytes};
use crate::helper::{sign_extend, sign_extended};
use crate::types::{
    wf_byte, wf_word, RF_SEL_ALU, RF_SEL_BR_EN, RF_SEL_LB, RF_SEL_LBU, RF_SEL_LH, RF_SEL_LHU,
    RF_SEL_LW, RF_SEL_PC_PLUS4, RF_SEL_U_IMM,
};
use vstd::prelude::*;

verus! {

/// A register index net names a valid register when its byte, if known, is
/// below 32.
pub open spec fn wf_reg_idx(s: Seq<Option<u8>>) -> bool {
    wf_byte(s) && (s[0] is Some ==> known_reg(s) < 32)
}

/// The register number a known index net names.
pub open spec fn known_reg(s: Seq<Option<u8>>) -> nat {
    crate::bytes::known_byte(s[0])
}

/// The thirty-two architectural registers.
pub struct Registers {
    /// Register values, indexed by register number; entry 0 is kept zero.
    pub data: Vec<Bytes>,
}

impl View for Registers {
    type V = Seq<Seq<Option<u8>>>;

    open spec fn view(&self) -> Seq<Seq<Option<u8>>> {
        self.data@.map_values(|b: Bytes| b@)
    }
}

/// Every register holds a word.
pub open spec fn wf_regs(regs: Seq<Seq<Option<u8>>>) -> bool {
    regs.len() == 32 && forall|i: int| 0 <= i < 32 ==> wf_word(#[trigger] regs[i])
}

/// What a combinational read of an index returns: register 0 reads as the
/// zero word, an unknown index reads as unknown.
pub open spec fn regs_read(regs: Seq<Seq<Option<u8>>>, idx: Seq<Option<u8>>) -> Seq<Option<u8>> {
    match idx[0] {
        Some(i) => if i == 0 {
            zero_seq(4)
        } else {
            regs[i as int]
        },
        None => unknown_seq(4),
    }
}

/// What the registers hold after a clocked write: writes to register 0 and
/// writes through an unknown index are discarded.
pub open spec fn regs_write(
    regs: Seq<Seq<Option<u8>>>,
    idx: Seq<Option<u8>>,
    value: Seq<Option<u8>>,
) -> Seq<Seq<Option<u8>>> {
    match idx[0] {
        Some(i) => if i == 0 {
            regs
        } else {
            regs.update(i as int, value)
        },
        None => regs,
    }
}

impl Registers {
    /// Builds the file with every register zero.
    pub fn new() -> (r: Registers)
        ensures
            wf_regs(r@),
            r@ == Seq::new(32, |i: int| zero_seq(4)),
    {
        let mut data: Vec<Bytes> = Vec::new();
        let mut i: usize = 0;
        while i < 32
            invariant
                i <= 32,
                data@.len() == i,
                forall|j: int| 0 <= j < i ==> #[trigger] data@[j]@ == zero_seq(4),
            decreases 32 - i,
        {
            data.push(Bytes::zeros(4));
            i = i + 1;
        }
        let r = Registers { data };
        proof {
            assert(r@ =~= Seq::new(32, |i: int| zero_seq(4)));
        }
        r
    }

    /// A combinational, asynchronous read.
    pub fn read(&self, index: &Bytes) -> (out: Bytes)
        requires
            wf_regs(self@),
            wf_reg_idx(index@),
        ensures
            out@ == regs_read(self@, index@),
    {
        match index.to_u8() {
            Some(i) => {
                if i == 0 {
                    Bytes::zeros(4)
                } else {
                    self.data[i as usize].clone()
                }
            },
            None => Bytes::unknown(4),
        }
    }

    /// A clocked write; writes to register 0 are discarded.
    pub fn write(&mut self, index: &Bytes, value: &Bytes)
        requires
            wf_regs(old(self)@),
            wf_reg_idx(index@),
            wf_word(value@),
        ensures
            final(self)@ == regs_write(old(self)@, index@, value@),
            wf_regs(final(self)@),
    {
        match index.to_u8() {
            Some(i) => {
                if i != 0 {
                    self.data[i as usize] = value.clone();
                    proof {
                        assert(self@ =~= regs_write(old(self)@, index@, value@));
                    }
                }
            },
            None => {},
        }
    }

    /// Zeroes every register.
    pub fn reset(&mut self)
        ensures
            wf_regs(final(self)@),
            final(self)@ == Seq::new(32, |i: int| zero_seq(4)),
    {
        *self = Registers::new();
    }
}

/// After a clocked write, a combinational read of the written index returns
/// the written value, and register 0 reads zero whatever was written.
pub proof fn lemma_regfile_write_then_read(
    regs: Seq<Seq<Option<u8>>>,
    idx: Seq<Option<u8>>,
    value: Seq<Option<u8>>,
)
    requires
        wf_regs(regs),
        wf_reg_idx(idx),
        idx[0] is Some,
    ensures
        known_reg(idx) != 0 ==> regs_read(regs_write(regs, idx, value), idx) == value,
        known_reg(idx) == 0 ==> regs_read(regs_write(regs, idx, value), idx) == zero_seq(4),
{
}

/// The register file component: a clocked write port and two combinational
/// read ports.
pub struct RegFile {
    /// The architectural registers.
    pub registers: Registers,
}

impl RegFile {
    /// Builds the file with every register zero.
    pub fn new() -> (r: RegFile)
        ensures
            wf_regs(r.registers@),
            r.registers@ == Seq::new(32, |i: int| zero_seq(4)),
    {
        RegFile { registers: Registers::new() }
    }

    /// Zeroes every register.
    pub fn reset(&mut self)
        ensures
            wf_regs(final(self).registers@),
            final(self).registers@ == Seq::new(32, |i: int| zero_seq(4)),
    {
        self.registers.reset();
    }

    /// On the clock edge, writes the destination register when the write
    /// enable is not the known zero byte (an unknown enable writes, as the
    /// hardware would latch an undriven enable unpredictably; the write
    /// data is then typically unknown too).
    pub fn on_clock(&mut self, rd_wr: &Bytes, rd_idx: &Bytes, rd_data: &Bytes)
        requires
            wf_regs(old(self).registers@),
            wf_byte(rd_wr@),
            wf_reg_idx(rd_idx@),
            wf_word(rd_data@),
        ensures
            final(self).registers@ == if rd_wr@ == zero_seq(1) {
                old(self).registers@
            } else {
                regs_write(old(self).registers@, rd_idx@, rd_data@)
            },
            wf_regs(final(self).registers@),
    {
        let zero = Bytes::zeros(1);
        if !rd_wr.same_as(&zero) {
            self.registers.write(rd_idx, rd_data);
        }
    }

    /// Publishes both read ports from the current index nets.
    pub fn on_comb(&self, rs1_idx: &Bytes, rs2_idx: &Bytes) -> (out: (Bytes, Bytes))
        requires
            wf_regs(self.registers@),
            wf_reg_idx(rs1_idx@),
            wf_reg_idx(rs2_idx@),
        ensures
            out.0@ == regs_read(self.registers@, rs1_idx@),
            out.1@ == regs_read(self.registers@, rs2_idx@),
    {
        (self.registers.read(rs1_idx), self.registers.read(rs2_idx))
    }
}

/// The byte offset within the addressed word that a load extracts from:
/// the low two bits of the effective address, or zero when the address is
/// not fully known.
pub open spec fn lane_of(addr: Seq<Option<u8>>) -> nat {
    if all_known(addr) {
        le_val(addr) % 4
    } else {
        0
    }
}

/// What the register-file write multiplexer drives: the ALU output, the
/// comparator output, the U immediate, the next sequential address, the raw
/// memory word, or a byte- or half-word extract of the memory word selected
/// by the effective address's low two bits, sign- or zero-extended.
pub open spec fn rf_mux_eval(
    alu_out: Seq<Option<u8>>,
    cmp_out: Seq<Option<u8>>,
    u_imm: Seq<Option<u8>>,
    mem_addr: Seq<Option<u8>>,
    mem_rdata: Seq<Option<u8>>,
    pc: Seq<Option<u8>>,
    sel: Seq<Option<u8>>,
) -> Seq<Option<u8>> {
    let lane = lane_of(mem_addr) as int;
    match sel[0] {
        Some(c) => if c == RF_SEL_ALU {
            alu_out
        } else if c == RF_SEL_BR_EN {
            cmp_out
        } else if c == RF_SEL_U_IMM {
            u_imm
        } else if c == RF_SEL_LW {
            mem_rdata
        } else if c == RF_SEL_PC_PLUS4 {
            crate::bytes::add_bytes(pc, crate::alu::word_of(4))
        } else if c == RF_SEL_LB {
            match mem_rdata[lane] {
                Some(v) => from_nat(4, sign_extended(v as nat, 7)),
                None => unknown_seq(4),
            }
        } else if c == RF_SEL_LBU {
            match mem_rdata[lane] {
                Some(v) => from_nat(4, v as nat),
                None => unknown_seq(4),
            }
        } else if c == RF_SEL_LH || c == RF_SEL_LHU {
            if lane + 1 < 4 {
                match (mem_rdata[lane], mem_rdata[lane + 1]) {
                    (Some(lo), Some(hi)) => {
                        let half = lo as nat + 256 * hi as nat;
                        if c == RF_SEL_LH {
                            from_nat(4, sign_extended(half, 15))
                        } else {
                            from_nat(4, half)
                        }
                    },
                    _ => unknown_seq(4),
                }
            } else {
                unknown_seq(4)
            }
        } else {
            unknown_seq(4)
        },
        None => unknown_seq(4),
    }
}

/// Selects the register file's write data.
pub struct RegFileMux {}

impl RegFileMux {
    /// Builds the multiplexer; it holds no state.
    pub fn new() -> RegFileMux {
        RegFileMux {}
    }

    /// Recomputes the output from the current inputs and selector nets.
    pub fn on_comb(
        &self,
        alu_out: &Bytes,
        cmp_out: &Bytes,
        u_imm: &Bytes,
        mem_addr: &Bytes,
        mem_rdata: &Bytes,
        pc: &Bytes,
        sel: &Bytes,
    ) -> (out: Bytes)
        requires
            wf_word(alu_out@),
            wf_word(cmp_out@),
            wf_word(u_imm@),
            wf_word(mem_addr@),
            wf_word(mem_rdata@),
            wf_word(pc@),
            wf_byte(sel@),
        ensures
            out@ == rf_mux_eval(alu_out@, cmp_out@, u_imm@, mem_addr@, mem_rdata@, pc@, sel@),
    {
        let lane: usize = match mem_addr.to_u32() {
            Some(a) => {
                proof {
                    assert(mem_addr@.take(4) =~= mem_addr@);
                    crate::bytes::lemma_le_val_bound(mem_addr@);
                    vstd::arithmetic::power2::lemma2_to64();
                    assert(a & 0x3 == a % 4 && a & 0x3 < 4) by (bit_vector);
                }
                (a & 0x3) as usize
            },
            None => 0,
        };
        match sel.to_u8() {
            Some(c) => {
                if c == RF_SEL_ALU {
                    alu_out.clone()
                } else if c == RF_SEL_BR_EN {
                    cmp_out.clone()
                } else if c == RF_SEL_U_IMM {
                    u_imm.clone()
                } else if c == RF_SEL_LW {
                    mem_rdata.clone()
                } else if c == RF_SEL_PC_PLUS4 {
                    pc.add(&Bytes::from_u32(4))
                } else if c == RF_SEL_LB {
                    match mem_rdata.get(lane) {
                        Some(v) => sign_extend(v as u32, 7),
                        None => Bytes::unknown(4),
                    }
                } else if c == RF_SEL_LBU {
                    match mem_rdata.get(lane) {
                        Some(v) => Bytes::from_u32(v as u32),
                        None => Bytes::unknown(4),
                    }
                } else if c == RF_SEL_LH || c == RF_SEL_LHU {
                    if lane + 1 < 4 {
                        match (mem_rdata.get(lane), mem_rdata.get(lane + 1)) {
                            (Some(lo), Some(hi)) => {
                                let half: u32 = lo as u32 + 256 * (hi as u32);
                                if c == RF_SEL_LH {
                                    sign_extend(half, 15)
                                } else {
                                    Bytes::from_u32(half)
                                }
                            },
                            _ => Bytes::unknown(4),
                        }
                    } else {
                        Bytes::unknown(4)
                    }
                } else {
                    Bytes::unknown(4)
                }
            },
            None => Bytes::unknown(4),
        }
    }
}

} // verus!
